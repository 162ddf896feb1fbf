use ash::vk;

use vkengine::renderer::context::{
    check_device_extensions, check_validation_layers, enabled_layers, find_queue_families,
    instance_extensions, pick_physical_device, unique_queue_families, DeviceCandidate,
    PhysicalDeviceKind, QueueFamilyIndices, QueueFamilySupport, RendererError,
};
use vkengine::renderer::debug::{aabb_corner, aabb_edges};
use vkengine::renderer::frame::{
    plan_frame, AcquireOutcome, AfterSubmit, FramePlan, FrameRing, ERROR_OUT_OF_DATE,
};
use vkengine::renderer::memory::{
    find_memory_type, upload_size, MEMORY_DEVICE_LOCAL, MEMORY_HOST_COHERENT, MEMORY_HOST_VISIBLE,
};
use vkengine::renderer::mesh::{cube_indices, index_count, CUBE_VERTEX_COUNT};
use vkengine::renderer::shadow::spirv_words;
use vkengine::renderer::swapchain::{
    choose_extent, choose_format, choose_image_count, choose_present_mode, plan_swapchain,
    queue_sharing, Extent2D, ResizeTracker, SharingMode, SurfaceCapabilities, SurfaceFormat,
    COLOR_SPACE_SRGB_NONLINEAR, FORMAT_B8G8R8A8_SRGB, PRESENT_MODE_FIFO, PRESENT_MODE_MAILBOX,
};

fn fam(graphics: bool, transfer: bool, present: bool) -> QueueFamilySupport {
    QueueFamilySupport { graphics, transfer, present }
}

fn names(list: &[&str]) -> Vec<Vec<u8>> {
    list.iter().map(|s| s.as_bytes().to_vec()).collect()
}

#[test]
fn vulkan_constants_match_ash() {
    assert_eq!(FORMAT_B8G8R8A8_SRGB, vk::Format::B8G8R8A8_SRGB.as_raw());
    assert_eq!(COLOR_SPACE_SRGB_NONLINEAR, vk::ColorSpaceKHR::SRGB_NONLINEAR.as_raw());
    assert_eq!(PRESENT_MODE_FIFO, vk::PresentModeKHR::FIFO.as_raw());
    assert_eq!(PRESENT_MODE_MAILBOX, vk::PresentModeKHR::MAILBOX.as_raw());
    assert_eq!(ERROR_OUT_OF_DATE, vk::Result::ERROR_OUT_OF_DATE_KHR.as_raw());
    assert_eq!(MEMORY_DEVICE_LOCAL, vk::MemoryPropertyFlags::DEVICE_LOCAL.as_raw());
    assert_eq!(MEMORY_HOST_VISIBLE, vk::MemoryPropertyFlags::HOST_VISIBLE.as_raw());
    assert_eq!(MEMORY_HOST_COHERENT, vk::MemoryPropertyFlags::HOST_COHERENT.as_raw());
}

#[test]
fn queue_families_prefer_dedicated_transfer() {
    let fams = [fam(true, true, true), fam(false, true, false)];
    let q = find_queue_families(&fams).unwrap();
    assert_eq!(q, QueueFamilyIndices { graphics: 0, present: 0, transfer: 1 });
}

#[test]
fn queue_families_fall_back_to_graphics_for_transfer() {
    let fams = [fam(false, false, true), fam(true, true, false)];
    let q = find_queue_families(&fams).unwrap();
    assert_eq!(q, QueueFamilyIndices { graphics: 1, present: 0, transfer: 1 });
}

#[test]
fn queue_families_take_the_last_match() {
    let fams = [fam(true, true, true), fam(true, true, true), fam(false, true, false), fam(false, true, false)];
    let q = find_queue_families(&fams).unwrap();
    assert_eq!(q, QueueFamilyIndices { graphics: 1, present: 1, transfer: 3 });
}

#[test]
fn queue_families_need_graphics_and_present() {
    assert!(matches!(
        find_queue_families(&[fam(true, true, false)]),
        Err(RendererError::QueueFamiliesNotFound)
    ));
    assert!(matches!(
        find_queue_families(&[fam(false, true, true)]),
        Err(RendererError::QueueFamiliesNotFound)
    ));
    assert!(matches!(find_queue_families(&[]), Err(RendererError::QueueFamiliesNotFound)));
}

#[test]
fn unique_queue_families_drop_repeats() {
    assert_eq!(unique_queue_families(QueueFamilyIndices { graphics: 0, present: 0, transfer: 0 }), vec![0]);
    assert_eq!(unique_queue_families(QueueFamilyIndices { graphics: 0, present: 1, transfer: 0 }), vec![0, 1]);
    assert_eq!(unique_queue_families(QueueFamilyIndices { graphics: 2, present: 1, transfer: 1 }), vec![2, 1]);
    assert_eq!(unique_queue_families(QueueFamilyIndices { graphics: 0, present: 1, transfer: 2 }), vec![0, 1, 2]);
}

#[test]
fn device_extensions_must_all_be_present() {
    let avail = names(&["VK_KHR_swapchain", "VK_KHR_dynamic_rendering", "VK_EXT_x"]);
    assert!(check_device_extensions(&avail, &names(&["VK_KHR_swapchain", "VK_KHR_dynamic_rendering"])));
    assert!(!check_device_extensions(&avail, &names(&["VK_KHR_swapchain", "VK_KHR_missing"])));
    assert!(check_device_extensions(&avail, &[]));
    assert!(!check_device_extensions(&[], &names(&["VK_KHR_swapchain"])));
    // A prefix is not a match.
    assert!(!check_device_extensions(&names(&["VK_KHR_swap"]), &names(&["VK_KHR_swapchain"])));
}

fn candidate(kind: PhysicalDeviceKind, ok_queues: bool, exts: &[&str]) -> DeviceCandidate {
    DeviceCandidate {
        kind,
        queue_families: if ok_queues { vec![fam(true, true, true)] } else { vec![fam(false, true, false)] },
        extensions: names(exts),
    }
}

#[test]
fn discrete_gpu_is_preferred() {
    let req = names(&["VK_KHR_swapchain"]);
    let devs = vec![
        candidate(PhysicalDeviceKind::IntegratedGpu, true, &["VK_KHR_swapchain"]),
        candidate(PhysicalDeviceKind::DiscreteGpu, true, &["VK_KHR_swapchain"]),
        candidate(PhysicalDeviceKind::VirtualGpu, true, &["VK_KHR_swapchain"]),
    ];
    assert_eq!(pick_physical_device(&devs, &req).unwrap(), 1);
}

#[test]
fn unsuitable_devices_are_skipped() {
    let req = names(&["VK_KHR_swapchain"]);
    let devs = vec![
        candidate(PhysicalDeviceKind::DiscreteGpu, false, &["VK_KHR_swapchain"]),
        candidate(PhysicalDeviceKind::DiscreteGpu, true, &[]),
        candidate(PhysicalDeviceKind::Other, true, &["VK_KHR_swapchain"]),
    ];
    assert_eq!(pick_physical_device(&devs, &req).unwrap(), 2);
}

#[test]
fn first_of_equal_devices_is_picked() {
    let req = names(&[]);
    let devs = vec![
        candidate(PhysicalDeviceKind::IntegratedGpu, true, &[]),
        candidate(PhysicalDeviceKind::IntegratedGpu, true, &[]),
    ];
    assert_eq!(pick_physical_device(&devs, &req).unwrap(), 0);
}

#[test]
fn no_devices_and_no_suitable_devices_are_errors() {
    let req = names(&["VK_KHR_swapchain"]);
    assert!(matches!(pick_physical_device(&[], &req), Err(RendererError::NoVulkanDevice)));
    let devs = vec![candidate(PhysicalDeviceKind::DiscreteGpu, true, &[])];
    assert!(matches!(pick_physical_device(&devs, &req), Err(RendererError::NoSuitableDevice)));
}

#[test]
fn validation_layers_are_checked() {
    let ok = vec!["VK_LAYER_other".to_string(), "VK_LAYER_KHRONOS_validation".to_string()];
    assert!(check_validation_layers(&ok).is_ok());
    match check_validation_layers(&["VK_LAYER_other".to_string()]) {
        Err(RendererError::ValidationLayerMissing(name)) => {
            assert_eq!(name, "VK_LAYER_KHRONOS_validation")
        }
        other => panic!("unexpected {:?}", other),
    }
}

#[test]
fn layers_and_instance_extensions_follow_validation() {
    assert_eq!(enabled_layers(true), vec!["VK_LAYER_KHRONOS_validation".to_string()]);
    assert!(enabled_layers(false).is_empty());
    let win = names(&["VK_KHR_surface", "VK_KHR_xlib_surface"]);
    let dbg = b"VK_EXT_debug_utils".to_vec();
    assert_eq!(instance_extensions(win.clone(), dbg.clone(), false), win);
    let mut with = win.clone();
    with.push(dbg.clone());
    assert_eq!(instance_extensions(win, dbg, true), with);
}

#[test]
fn memory_type_is_the_first_fit() {
    let types = [MEMORY_HOST_VISIBLE, MEMORY_DEVICE_LOCAL, MEMORY_DEVICE_LOCAL | MEMORY_HOST_VISIBLE];
    assert_eq!(find_memory_type(0b111, &types, MEMORY_DEVICE_LOCAL), Some(1));
    assert_eq!(find_memory_type(0b101, &types, MEMORY_DEVICE_LOCAL), Some(2));
    assert_eq!(find_memory_type(0b011, &types, MEMORY_DEVICE_LOCAL | MEMORY_HOST_VISIBLE), None);
    assert_eq!(find_memory_type(0, &types, 0), None);
    assert_eq!(find_memory_type(0b100, &types, 0), Some(2));
}

#[test]
fn upload_size_is_bytes() {
    assert_eq!(upload_size(4, 36), 144);
    assert_eq!(upload_size(48, 0), 0);
}

fn caps(current: (u32, u32)) -> SurfaceCapabilities {
    SurfaceCapabilities {
        min_image_count: 2,
        max_image_count: 3,
        current_extent: Extent2D { width: current.0, height: current.1 },
        min_image_extent: Extent2D { width: 100, height: 100 },
        max_image_extent: Extent2D { width: 1920, height: 1080 },
    }
}

#[test]
fn format_prefers_bgra_srgb() {
    let other = SurfaceFormat { format: 44, color_space: 0 };
    let best = SurfaceFormat { format: FORMAT_B8G8R8A8_SRGB, color_space: COLOR_SPACE_SRGB_NONLINEAR };
    assert_eq!(choose_format(&[other, best]), best);
    assert_eq!(choose_format(&[other]), other);
    let wrong_space = SurfaceFormat { format: FORMAT_B8G8R8A8_SRGB, color_space: 5 };
    assert_eq!(choose_format(&[wrong_space, other]), wrong_space);
}

#[test]
fn present_mode_follows_vsync() {
    assert_eq!(choose_present_mode(&[PRESENT_MODE_MAILBOX], true), PRESENT_MODE_FIFO);
    assert_eq!(choose_present_mode(&[PRESENT_MODE_FIFO, PRESENT_MODE_MAILBOX], false), PRESENT_MODE_MAILBOX);
    assert_eq!(choose_present_mode(&[PRESENT_MODE_FIFO], false), PRESENT_MODE_FIFO);
}

#[test]
fn extent_uses_current_or_clamps() {
    assert_eq!(choose_extent(&caps((800, 600)), 1280, 720), Extent2D { width: 800, height: 600 });
    assert_eq!(choose_extent(&caps((u32::MAX, u32::MAX)), 4000, 50), Extent2D { width: 1920, height: 100 });
    assert_eq!(choose_extent(&caps((u32::MAX, u32::MAX)), 1280, 720), Extent2D { width: 1280, height: 720 });
}

#[test]
fn image_count_is_one_above_minimum_within_maximum() {
    assert_eq!(choose_image_count(&caps((1, 1))), 3);
    let mut c = caps((1, 1));
    c.max_image_count = 2;
    assert_eq!(choose_image_count(&c), 2);
    c.max_image_count = 0;
    assert_eq!(choose_image_count(&c), 3);
}

#[test]
fn sharing_is_concurrent_only_across_families() {
    let (mode, idx) = queue_sharing(QueueFamilyIndices { graphics: 0, present: 2, transfer: 1 });
    assert_eq!(mode, SharingMode::Concurrent);
    assert_eq!(idx, vec![0, 2]);
    let (mode, idx) = queue_sharing(QueueFamilyIndices { graphics: 1, present: 1, transfer: 1 });
    assert_eq!(mode, SharingMode::Exclusive);
    assert!(idx.is_empty());
}

#[test]
fn swapchain_plan_combines_the_choices() {
    let best = SurfaceFormat { format: FORMAT_B8G8R8A8_SRGB, color_space: COLOR_SPACE_SRGB_NONLINEAR };
    let p = plan_swapchain(
        &caps((u32::MAX, u32::MAX)),
        &[best],
        &[PRESENT_MODE_FIFO, PRESENT_MODE_MAILBOX],
        false,
        640,
        480,
        QueueFamilyIndices { graphics: 0, present: 0, transfer: 0 },
    );
    assert_eq!(p.format, best);
    assert_eq!(p.present_mode, PRESENT_MODE_MAILBOX);
    assert_eq!(p.extent, Extent2D { width: 640, height: 480 });
    assert_eq!(p.image_count, 3);
    assert_eq!(p.sharing, SharingMode::Exclusive);
    assert!(p.queue_family_indices.is_empty());
}

#[test]
fn resize_is_taken_once_with_latest_size() {
    let mut t = ResizeTracker::new(800, 600);
    assert_eq!(t.take_pending(), None);
    t.mark_dirty(1024, 768);
    t.mark_dirty(1280, 720);
    assert_eq!(t.take_pending(), Some(Extent2D { width: 1280, height: 720 }));
    assert_eq!(t.take_pending(), None);
}

#[test]
fn frame_ring_cycles_through_slots() {
    let mut r = FrameRing::new(2);
    assert_eq!(r.frames_in_flight(), 2);
    let mut seen = Vec::new();
    for _ in 0..5 {
        seen.push(r.current());
        r.advance();
    }
    assert_eq!(seen, vec![0, 1, 0, 1, 0]);
    let mut one = FrameRing::new(1);
    one.advance();
    assert_eq!(one.current(), 0);
}

#[test]
fn frame_plan_follows_acquire_outcome() {
    assert_eq!(
        plan_frame(AcquireOutcome::Acquired { image_index: 2, suboptimal: false }),
        FramePlan::Record { image_index: 2, then: AfterSubmit::Present }
    );
    assert_eq!(
        plan_frame(AcquireOutcome::Acquired { image_index: 0, suboptimal: true }),
        FramePlan::Record { image_index: 0, then: AfterSubmit::RecreateSwapchain }
    );
    assert_eq!(plan_frame(AcquireOutcome::Failed(ERROR_OUT_OF_DATE)), FramePlan::RecreateAndSkip);
    let lost = vk::Result::ERROR_DEVICE_LOST.as_raw();
    assert_eq!(plan_frame(AcquireOutcome::Failed(lost)), FramePlan::Abort(lost));
}

#[test]
fn cube_has_twelve_triangles_over_eight_vertices() {
    let idx = cube_indices();
    assert_eq!(idx.len(), 36);
    assert!(idx.iter().all(|&i| i < CUBE_VERTEX_COUNT));
    assert_eq!(&idx[..6], &[0, 1, 2, 2, 3, 0]);
    assert_eq!(&idx[30..], &[5, 4, 1, 1, 0, 5]);
    assert_eq!(index_count(&idx), 36);
    assert_eq!(index_count(&[]), 0);
}

#[test]
fn spirv_words_are_little_endian() {
    let code = [0x03u8, 0x02, 0x23, 0x07, 0x00, 0x00, 0x01, 0x00, 0xff];
    assert_eq!(spirv_words(&code), vec![0x0723_0203, 0x0001_0000]);
    assert!(spirv_words(&[1, 2, 3]).is_empty());
}

#[test]
fn box_edges_join_neighbouring_corners() {
    let edges = aabb_edges();
    assert_eq!(edges.len(), 12);
    for (a, b) in edges {
        let ca = aabb_corner(a);
        let cb = aabb_corner(b);
        let diff = (ca.0 != cb.0) as u32 + (ca.1 != cb.1) as u32 + (ca.2 != cb.2) as u32;
        assert_eq!(diff, 1);
    }
    assert_eq!(aabb_corner(0), (false, false, false));
    assert_eq!(aabb_corner(2), (true, true, false));
    assert_eq!(aabb_corner(7), (false, true, true));
}

//! Planning a swapchain from what the surface supports, and tracking window
//! resizes until the swapchain is rebuilt.

use vstd::prelude::*;

use crate::renderer::context::QueueFamilyIndices;

verus! {

/// `VK_FORMAT_B8G8R8A8_SRGB`.
pub const FORMAT_B8G8R8A8_SRGB: i32 = 50;

/// `VK_COLOR_SPACE_SRGB_NONLINEAR_KHR`.
pub const COLOR_SPACE_SRGB_NONLINEAR: i32 = 0;

/// `VK_PRESENT_MODE_MAILBOX_KHR`.
pub const PRESENT_MODE_MAILBOX: i32 = 1;

/// `VK_PRESENT_MODE_FIFO_KHR`, which every surface supports.
pub const PRESENT_MODE_FIFO: i32 = 2;

/// A surface format: a `VkFormat` and a `VkColorSpaceKHR`, as raw values.
#[derive(Debug, Clone, Copy, PartialEq, Eq, Structural)]
pub struct SurfaceFormat {
    pub format: i32,
    pub color_space: i32,
}

/// A width and height in pixels.
#[derive(Debug, Clone, Copy, PartialEq, Eq, Structural)]
pub struct Extent2D {
    pub width: u32,
    pub height: u32,
}

/// What the surface reports about the swapchains it accepts.
#[derive(Debug, Clone, Copy, PartialEq, Eq, Structural)]
pub struct SurfaceCapabilities {
    pub min_image_count: u32,
    /// Zero when there is no upper limit.
    pub max_image_count: u32,
    /// `u32::MAX` wide when the swapchain decides the extent.
    pub current_extent: Extent2D,
    pub min_image_extent: Extent2D,
    pub max_image_extent: Extent2D,
}

/// How swapchain images are shared between queue families.
#[derive(Debug, Clone, Copy, PartialEq, Eq, Structural)]
pub enum SharingMode {
    Exclusive,
    Concurrent,
}

pub open spec fn preferred_format() -> SurfaceFormat {
    SurfaceFormat { format: FORMAT_B8G8R8A8_SRGB, color_space: COLOR_SPACE_SRGB_NONLINEAR }
}

/// 8-bit BGRA in sRGB when the surface offers it, else its first format.
pub open spec fn chosen_format(formats: Seq<SurfaceFormat>) -> SurfaceFormat {
    if formats.contains(preferred_format()) {
        preferred_format()
    } else {
        formats[0]
    }
}

/// FIFO with vsync; without it mailbox when offered, else FIFO.
pub open spec fn chosen_present_mode(modes: Seq<i32>, vsync: bool) -> i32 {
    if vsync {
        PRESENT_MODE_FIFO
    } else if modes.contains(PRESENT_MODE_MAILBOX) {
        PRESENT_MODE_MAILBOX
    } else {
        PRESENT_MODE_FIFO
    }
}

pub open spec fn clamped(v: u32, lo: u32, hi: u32) -> u32 {
    if v < lo {
        lo
    } else if v > hi {
        hi
    } else {
        v
    }
}

/// The surface's current extent when it fixes one, else the window size
/// clamped to the surface's limits.
pub open spec fn chosen_extent(caps: SurfaceCapabilities, width: u32, height: u32) -> Extent2D {
    if caps.current_extent.width != u32::MAX {
        caps.current_extent
    } else {
        Extent2D {
            width: clamped(width, caps.min_image_extent.width, caps.max_image_extent.width),
            height: clamped(height, caps.min_image_extent.height, caps.max_image_extent.height),
        }
    }
}

/// The clamp is defined: the surface's limits are ordered where they are used.
pub open spec fn extent_limits_ordered(caps: SurfaceCapabilities) -> bool {
    caps.current_extent.width == u32::MAX ==> {
        &&& caps.min_image_extent.width <= caps.max_image_extent.width
        &&& caps.min_image_extent.height <= caps.max_image_extent.height
    }
}

/// One image more than the minimum, capped by the maximum when there is one.
pub open spec fn chosen_image_count(caps: SurfaceCapabilities) -> u32 {
    let wanted = (caps.min_image_count + 1) as u32;
    let cap = if caps.max_image_count > 0 {
        caps.max_image_count
    } else {
        u32::MAX
    };
    if wanted < cap {
        wanted
    } else {
        cap
    }
}

/// Pick the surface format (see `chosen_format`).
pub fn choose_format(formats: &[SurfaceFormat]) -> (r: SurfaceFormat)
    requires
        formats@.len() > 0,
    ensures
        r == chosen_format(formats@),
{
    let mut i: usize = 0;
    while i < formats.len()
        invariant
            i <= formats@.len(),
            forall|k: int| 0 <= k < i ==> formats@[k] != preferred_format(),
        decreases formats.len() - i,
    {
        let f = formats[i];
        if f.format == FORMAT_B8G8R8A8_SRGB && f.color_space == COLOR_SPACE_SRGB_NONLINEAR {
            assert(formats@[i as int] == preferred_format());
            return f;
        }
        i += 1;
    }
    formats[0]
}

/// Pick the present mode (see `chosen_present_mode`).
pub fn choose_present_mode(modes: &[i32], vsync: bool) -> (r: i32)
    ensures
        r == chosen_present_mode(modes@, vsync),
        vsync ==> r == PRESENT_MODE_FIFO,
        !vsync ==> (r == PRESENT_MODE_MAILBOX <==> modes@.contains(PRESENT_MODE_MAILBOX)),
        r == PRESENT_MODE_MAILBOX || r == PRESENT_MODE_FIFO,
{
    if vsync {
        return PRESENT_MODE_FIFO;
    }
    let mut i: usize = 0;
    while i < modes.len()
        invariant
            !vsync,
            i <= modes@.len(),
            forall|k: int| 0 <= k < i ==> modes@[k] != PRESENT_MODE_MAILBOX,
        decreases modes.len() - i,
    {
        if modes[i] == PRESENT_MODE_MAILBOX {
            assert(modes@[i as int] == PRESENT_MODE_MAILBOX);
            assert(modes@.contains(PRESENT_MODE_MAILBOX));
            return PRESENT_MODE_MAILBOX;
        }
        i += 1;
    }
    PRESENT_MODE_FIFO
}

fn clamp_u32(v: u32, lo: u32, hi: u32) -> (r: u32)
    requires
        lo <= hi,
    ensures
        r == clamped(v, lo, hi),
{
    if v < lo {
        lo
    } else if v > hi {
        hi
    } else {
        v
    }
}

/// Pick the swapchain extent (see `chosen_extent`).
pub fn choose_extent(caps: &SurfaceCapabilities, width: u32, height: u32) -> (r: Extent2D)
    requires
        extent_limits_ordered(*caps),
    ensures
        r == chosen_extent(*caps, width, height),
{
    if caps.current_extent.width != u32::MAX {
        caps.current_extent
    } else {
        Extent2D {
            width: clamp_u32(width, caps.min_image_extent.width, caps.max_image_extent.width),
            height: clamp_u32(height, caps.min_image_extent.height, caps.max_image_extent.height),
        }
    }
}

/// How many images to ask for (see `chosen_image_count`).
pub fn choose_image_count(caps: &SurfaceCapabilities) -> (r: u32)
    requires
        caps.min_image_count < u32::MAX,
    ensures
        r == chosen_image_count(*caps),
{
    let wanted = caps.min_image_count + 1;
    let cap = if caps.max_image_count > 0 {
        caps.max_image_count
    } else {
        u32::MAX
    };
    if wanted < cap {
        wanted
    } else {
        cap
    }
}

/// Concurrent sharing between the graphics and present families when they
/// differ, exclusive use by one family otherwise.
pub fn queue_sharing(q: QueueFamilyIndices) -> (r: (SharingMode, Vec<u32>))
    ensures
        q.graphics != q.present ==> r.0 == SharingMode::Concurrent && r.1@ == seq![
            q.graphics,
            q.present,
        ],
        q.graphics == q.present ==> r.0 == SharingMode::Exclusive && r.1@.len() == 0,
{
    if q.graphics != q.present {
        let mut v: Vec<u32> = Vec::new();
        v.push(q.graphics);
        v.push(q.present);
        assert(v@ =~= seq![q.graphics, q.present]);
        (SharingMode::Concurrent, v)
    } else {
        (SharingMode::Exclusive, Vec::new())
    }
}

/// Everything a swapchain is created with that the engine decides.
pub struct SwapchainPlan {
    pub format: SurfaceFormat,
    pub present_mode: i32,
    pub extent: Extent2D,
    pub image_count: u32,
    pub sharing: SharingMode,
    pub queue_family_indices: Vec<u32>,
}

/// Plan a swapchain for a window of `width`×`height` from what the surface
/// supports.
pub fn plan_swapchain(
    caps: &SurfaceCapabilities,
    formats: &[SurfaceFormat],
    present_modes: &[i32],
    vsync: bool,
    width: u32,
    height: u32,
    queues: QueueFamilyIndices,
) -> (p: SwapchainPlan)
    requires
        formats@.len() > 0,
        extent_limits_ordered(*caps),
        caps.min_image_count < u32::MAX,
    ensures
        p.format == chosen_format(formats@),
        p.present_mode == chosen_present_mode(present_modes@, vsync),
        p.extent == chosen_extent(*caps, width, height),
        p.image_count == chosen_image_count(*caps),
        queues.graphics != queues.present ==> p.sharing == SharingMode::Concurrent
            && p.queue_family_indices@ == seq![queues.graphics, queues.present],
        queues.graphics == queues.present ==> p.sharing == SharingMode::Exclusive
            && p.queue_family_indices@.len() == 0,
{
    let format = choose_format(formats);
    let present_mode = choose_present_mode(present_modes, vsync);
    let extent = choose_extent(caps, width, height);
    let image_count = choose_image_count(caps);
    let (sharing, queue_family_indices) = queue_sharing(queues);
    SwapchainPlan { format, present_mode, extent, image_count, sharing, queue_family_indices }
}

// ─── Resizes ─────────────────────────────────────────────────────────────────

/// Remembers the latest window size until the swapchain is rebuilt for it.
#[derive(Debug, Clone, Copy)]
pub struct ResizeTracker {
    dirty: bool,
    new_width: u32,
    new_height: u32,
}

impl ResizeTracker {
    /// The size the swapchain still has to be rebuilt for, if any.
    pub closed spec fn pending(&self) -> Option<Extent2D> {
        if self.dirty {
            Some(Extent2D { width: self.new_width, height: self.new_height })
        } else {
            None
        }
    }

    /// The latest window size the tracker knows of.
    pub closed spec fn latest_size(&self) -> Extent2D {
        Extent2D { width: self.new_width, height: self.new_height }
    }

    /// A tracker for a swapchain just built at `width`×`height`: that is the
    /// latest size, and nothing is pending.
    pub fn new(width: u32, height: u32) -> (t: ResizeTracker)
        ensures
            t.pending() is None,
            t.latest_size() == (Extent2D { width, height }),
    {
        ResizeTracker { dirty: false, new_width: width, new_height: height }
    }

    /// Record a window resize; the latest size wins.
    pub fn mark_dirty(&mut self, width: u32, height: u32)
        ensures
            final(self).pending() == Some(Extent2D { width, height }),
            final(self).latest_size() == (Extent2D { width, height }),
    {
        self.dirty = true;
        self.new_width = width;
        self.new_height = height;
    }

    /// The size to rebuild for, once: the resize is then forgotten.
    pub fn take_pending(&mut self) -> (r: Option<Extent2D>)
        ensures
            r == old(self).pending(),
            final(self).pending() is None,
            final(self).latest_size() == old(self).latest_size(),
    {
        if self.dirty {
            self.dirty = false;
            Some(Extent2D { width: self.new_width, height: self.new_height })
        } else {
            None
        }
    }
}

// ─── Laws ────────────────────────────────────────────────────────────────────

/// The plan only uses what the surface offers: one of its formats, a present
/// mode it lists or FIFO (which every surface supports), and, where the
/// swapchain sets the extent, a size within the surface's limits.
pub proof fn lemma_plan_within_surface(
    caps: SurfaceCapabilities,
    formats: Seq<SurfaceFormat>,
    modes: Seq<i32>,
    vsync: bool,
    width: u32,
    height: u32,
)
    requires
        formats.len() > 0,
        extent_limits_ordered(caps),
    ensures
        formats.contains(chosen_format(formats)),
        chosen_present_mode(modes, vsync) == PRESENT_MODE_FIFO || modes.contains(
            chosen_present_mode(modes, vsync),
        ),
        vsync ==> chosen_present_mode(modes, vsync) == PRESENT_MODE_FIFO,
        caps.current_extent.width == u32::MAX ==> {
            let e = chosen_extent(caps, width, height);
            &&& caps.min_image_extent.width <= e.width <= caps.max_image_extent.width
            &&& caps.min_image_extent.height <= e.height <= caps.max_image_extent.height
        },
        caps.current_extent.width != u32::MAX ==> chosen_extent(caps, width, height)
            == caps.current_extent,
{
    assert(formats[0] == formats[0]);
}

/// The image count never exceeds the surface's maximum, and stays above its
/// minimum whenever the maximum leaves room for one more image.
pub proof fn lemma_image_count_bounds(caps: SurfaceCapabilities)
    requires
        caps.min_image_count < u32::MAX,
    ensures
        caps.max_image_count > 0 ==> chosen_image_count(caps) <= caps.max_image_count,
        (caps.max_image_count == 0 || caps.max_image_count > caps.min_image_count) ==> chosen_image_count(caps)
            == caps.min_image_count + 1,
{
}

/// The present mode is FIFO with vsync; without vsync it is mailbox exactly
/// when mailbox is anywhere among the surface's modes, and FIFO otherwise.
pub proof fn lemma_present_mode_choice(modes: Seq<i32>, vsync: bool)
    ensures
        vsync ==> chosen_present_mode(modes, vsync) == PRESENT_MODE_FIFO,
        !vsync && (exists|i: int| 0 <= i < modes.len() && modes[i] == PRESENT_MODE_MAILBOX)
            ==> chosen_present_mode(modes, vsync) == PRESENT_MODE_MAILBOX,
        !vsync && (forall|i: int| 0 <= i < modes.len() ==> modes[i] != PRESENT_MODE_MAILBOX)
            ==> chosen_present_mode(modes, vsync) == PRESENT_MODE_FIFO,
{
    if !vsync && (exists|i: int| 0 <= i < modes.len() && modes[i] == PRESENT_MODE_MAILBOX) {
        let i = choose|i: int| 0 <= i < modes.len() && modes[i] == PRESENT_MODE_MAILBOX;
        assert(modes.contains(PRESENT_MODE_MAILBOX)) by {
            assert(modes[i] == PRESENT_MODE_MAILBOX);
        }
    }
}

/// The format is 8-bit BGRA in sRGB (format 50, colour space 0) when the
/// surface lists it anywhere, and otherwise the first format it lists.
pub proof fn lemma_format_choice(formats: Seq<SurfaceFormat>)
    requires
        formats.len() > 0,
    ensures
        (exists|i: int| 0 <= i < formats.len() && formats[i].format == 50 && formats[i].color_space == 0)
            ==> chosen_format(formats) == (SurfaceFormat { format: 50, color_space: 0 }),
        (forall|i: int|
            0 <= i < formats.len() ==> !(formats[i].format == 50 && formats[i].color_space == 0))
            ==> chosen_format(formats) == formats[0],
{
    if exists|i: int| 0 <= i < formats.len() && formats[i].format == 50 && formats[i].color_space == 0 {
        let i = choose|i: int| 0 <= i < formats.len() && formats[i].format == 50 && formats[i].color_space == 0;
        assert(formats[i] == preferred_format());
        assert(formats.contains(preferred_format()));
    } else {
        assert(!formats.contains(preferred_format())) by {
            if formats.contains(preferred_format()) {
                let i = choose|i: int| 0 <= i < formats.len() && formats[i] == preferred_format();
                assert(formats[i].format == 50 && formats[i].color_space == 0);
            }
        }
    }
}

/// A surface that fixes its extent gets that extent; otherwise each side is
/// the window's when it lies within the surface's limits, and the nearer
/// limit when it does not.
pub proof fn lemma_extent_choice(caps: SurfaceCapabilities, width: u32, height: u32)
    requires
        extent_limits_ordered(caps),
    ensures
        caps.current_extent.width != u32::MAX ==> chosen_extent(caps, width, height) == caps.current_extent,
        caps.current_extent.width == u32::MAX ==> {
            let e = chosen_extent(caps, width, height);
            &&& caps.min_image_extent.width <= e.width <= caps.max_image_extent.width
            &&& caps.min_image_extent.height <= e.height <= caps.max_image_extent.height
            &&& (caps.min_image_extent.width <= width <= caps.max_image_extent.width ==> e.width == width)
            &&& (width < caps.min_image_extent.width ==> e.width == caps.min_image_extent.width)
            &&& (width > caps.max_image_extent.width ==> e.width == caps.max_image_extent.width)
            &&& (caps.min_image_extent.height <= height <= caps.max_image_extent.height ==> e.height
                == height)
            &&& (height < caps.min_image_extent.height ==> e.height == caps.min_image_extent.height)
            &&& (height > caps.max_image_extent.height ==> e.height == caps.max_image_extent.height)
        },
{
}

} // verus!

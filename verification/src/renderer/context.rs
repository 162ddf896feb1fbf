//! Choosing a GPU and its queue families, and the layers and extensions a
//! Vulkan instance and device are created with. The driver is queried by the
//! caller; these functions decide on what it reported.

use vstd::prelude::*;
use vstd::string::*;

verus! {

/// Why the renderer could not pick what it needs.
#[derive(Debug)]
pub enum RendererError {
    /// No queue family offers graphics, or none can present to the surface.
    QueueFamiliesNotFound,
    /// The driver reports no physical device at all.
    NoVulkanDevice,
    /// No physical device has the queue families and extensions required.
    NoSuitableDevice,
    /// A required validation layer is not installed.
    ValidationLayerMissing(String),
}

/// Queue family indices found during physical device selection.
#[derive(Debug, Clone, Copy, PartialEq, Eq, Structural)]
pub struct QueueFamilyIndices {
    pub graphics: u32,
    pub present: u32,
    pub transfer: u32,
}

/// What one queue family offers: graphics and transfer work, and
/// presentation to the window's surface.
#[derive(Debug, Clone, Copy, PartialEq, Eq, Structural)]
pub struct QueueFamilySupport {
    pub graphics: bool,
    pub transfer: bool,
    pub present: bool,
}

/// The roles a queue family is picked for.
pub enum QueueRole {
    Graphics,
    /// Transfer without graphics: a queue dedicated to copies.
    DedicatedTransfer,
    Present,
}

pub open spec fn fills_role(q: QueueFamilySupport, role: QueueRole) -> bool {
    match role {
        QueueRole::Graphics => q.graphics,
        QueueRole::DedicatedTransfer => q.transfer && !q.graphics,
        QueueRole::Present => q.present,
    }
}

/// The last family that fills the role.
pub open spec fn last_family(families: Seq<QueueFamilySupport>, role: QueueRole) -> Option<int>
    decreases families.len(),
{
    if families.len() == 0 {
        None
    } else if fills_role(families.last(), role) {
        Some(families.len() - 1)
    } else {
        last_family(families.drop_last(), role)
    }
}

/// The queue families chosen for a device: the last graphics family, the last
/// family that can present, and the last dedicated transfer family, or the
/// graphics family where there is none; `None` unless graphics and
/// presentation are both available. Indices are reported as 32-bit values,
/// as Vulkan numbers queue families.
pub open spec fn queue_selection(families: Seq<QueueFamilySupport>) -> Option<QueueFamilyIndices> {
    match (last_family(families, QueueRole::Graphics), last_family(families, QueueRole::Present)) {
        (Some(g), Some(p)) => Some(
            QueueFamilyIndices {
                graphics: g as u32,
                present: p as u32,
                transfer: match last_family(families, QueueRole::DedicatedTransfer) {
                    Some(t) => t as u32,
                    None => g as u32,
                },
            },
        ),
        _ => None,
    }
}

proof fn lemma_last_family_step(families: Seq<QueueFamilySupport>, i: int, role: QueueRole)
    requires
        0 <= i < families.len(),
    ensures
        last_family(families.take(i + 1), role) == if fills_role(families[i], role) {
            Some(i)
        } else {
            last_family(families.take(i), role)
        },
{
    assert(families.take(i + 1).drop_last() =~= families.take(i));
}

/// Pick the graphics, present and transfer queue families of a device from
/// what each of its families supports (see `queue_selection`).
pub fn find_queue_families(families: &[QueueFamilySupport]) -> (r: Result<
    QueueFamilyIndices,
    RendererError,
>)
    ensures
        match queue_selection(families@) {
            Some(q) => r matches Ok(found) && found == q,
            None => r matches Err(RendererError::QueueFamiliesNotFound),
        },
{
    let mut graphics: Option<u32> = None;
    let mut present: Option<u32> = None;
    let mut transfer: Option<u32> = None;
    let mut i: usize = 0;
    while i < families.len()
        invariant
            i <= families@.len(),
            graphics == match last_family(families@.take(i as int), QueueRole::Graphics) {
                Some(k) => Some(k as u32),
                None => None::<u32>,
            },
            present == match last_family(families@.take(i as int), QueueRole::Present) {
                Some(k) => Some(k as u32),
                None => None::<u32>,
            },
            transfer == match last_family(
                families@.take(i as int),
                QueueRole::DedicatedTransfer,
            ) {
                Some(k) => Some(k as u32),
                None => None::<u32>,
            },
        decreases families.len() - i,
    {
        let family = families[i];
        proof {
            lemma_last_family_step(families@, i as int, QueueRole::Graphics);
            lemma_last_family_step(families@, i as int, QueueRole::Present);
            lemma_last_family_step(families@, i as int, QueueRole::DedicatedTransfer);
        }
        let idx = #[verifier::truncate] (i as u32);
        if family.graphics {
            graphics = Some(idx);
        }
        if family.transfer && !family.graphics {
            transfer = Some(idx);
        }
        if family.present {
            present = Some(idx);
        }
        i += 1;
    }
    assert(families@.take(i as int) =~= families@);
    let transfer = match transfer {
        Some(t) => Some(t),
        None => graphics,
    };
    match (graphics, present, transfer) {
        (Some(g), Some(p), Some(t)) => Ok(QueueFamilyIndices { graphics: g, present: p, transfer: t }),
        _ => Err(RendererError::QueueFamiliesNotFound),
    }
}

/// The distinct queue families of a selection, in order: graphics, then
/// present where it differs from graphics, then transfer where it differs
/// from both.
pub open spec fn distinct_families(q: QueueFamilyIndices) -> Seq<u32> {
    let first = if q.present == q.graphics {
        seq![q.graphics]
    } else {
        seq![q.graphics, q.present]
    };
    if q.transfer == q.graphics || q.transfer == q.present {
        first
    } else {
        first.push(q.transfer)
    }
}

/// The distinct queue families in a selection, graphics first, then present
/// and transfer where they differ from those before them.
pub fn unique_queue_families(q: QueueFamilyIndices) -> (r: Vec<u32>)
    ensures
        r@ == distinct_families(q),
        r@.to_set() == set![q.graphics, q.present, q.transfer],
        r@.no_duplicates(),
        r@.len() > 0 && r@[0] == q.graphics,
{
    let mut r: Vec<u32> = Vec::new();
    r.push(q.graphics);
    if q.present != q.graphics {
        r.push(q.present);
    }
    if q.transfer != q.graphics && q.transfer != q.present {
        r.push(q.transfer);
    }
    assert(r@.contains(q.graphics)) by {
        assert(r@[0] == q.graphics);
    }
    assert(r@.contains(q.present)) by {
        if q.present != q.graphics {
            assert(r@[1] == q.present);
        }
    }
    assert(r@.contains(q.transfer)) by {
        if q.transfer != q.graphics && q.transfer != q.present {
            assert(r@[r@.len() - 1] == q.transfer);
        }
    }
    assert(forall|k: int|
        0 <= k < r@.len() ==> r@[k] == q.graphics || r@[k] == q.present || r@[k] == q.transfer);
    assert(r@.to_set() =~= set![q.graphics, q.present, q.transfer]);
    r
}

// ─── Names ───────────────────────────────────────────────────────────────────

/// Byte-wise equality of two names.
pub fn bytes_equal(a: &[u8], b: &[u8]) -> (r: bool)
    ensures
        r == (a@ == b@),
{
    if a.len() != b.len() {
        return false;
    }
    let mut i: usize = 0;
    while i < a.len()
        invariant
            a@.len() == b@.len(),
            i <= a@.len(),
            forall|k: int| 0 <= k < i ==> a@[k] == b@[k],
        decreases a.len() - i,
    {
        if a[i] != b[i] {
            return false;
        }
        i += 1;
    }
    assert(a@ =~= b@);
    true
}

/// Every required name occurs among the available ones.
pub open spec fn has_all_names(available: Seq<Seq<u8>>, required: Seq<Seq<u8>>) -> bool {
    forall|i: int| 0 <= i < required.len() ==> available.contains(#[trigger] required[i])
}

pub open spec fn names_of(v: Seq<Vec<u8>>) -> Seq<Seq<u8>> {
    v.map_values(|n: Vec<u8>| n@)
}

fn contains_name(available: &[Vec<u8>], name: &[u8]) -> (r: bool)
    ensures
        r == names_of(available@).contains(name@),
{
    let mut j: usize = 0;
    while j < available.len()
        invariant
            j <= available@.len(),
            forall|k: int| 0 <= k < j ==> available@[k]@ != name@,
        decreases available.len() - j,
    {
        if bytes_equal(available[j].as_slice(), name) {
            assert(names_of(available@)[j as int] == name@);
            return true;
        }
        j += 1;
    }
    assert forall|k: int| 0 <= k < names_of(available@).len() implies names_of(available@)[k]
        != name@ by {
        assert(available@[k]@ != name@);
    }
    false
}

/// Does the device offer every required extension?
pub fn check_device_extensions(available: &[Vec<u8>], required: &[Vec<u8>]) -> (r: bool)
    ensures
        r == has_all_names(names_of(available@), names_of(required@)),
{
    let mut i: usize = 0;
    while i < required.len()
        invariant
            i <= required@.len(),
            forall|k: int|
                0 <= k < i ==> names_of(available@).contains(#[trigger] names_of(required@)[k]),
        decreases required.len() - i,
    {
        if !contains_name(available, required[i].as_slice()) {
            assert(!names_of(available@).contains(names_of(required@)[i as int]));
            return false;
        }
        i += 1;
    }
    true
}

// ─── Physical devices ────────────────────────────────────────────────────────

/// The kind of a physical device, as the driver reports it.
#[derive(Debug, Clone, Copy, PartialEq, Eq, Structural)]
pub enum PhysicalDeviceKind {
    DiscreteGpu,
    IntegratedGpu,
    VirtualGpu,
    Other,
}

/// A physical device as the selection sees it: its kind, what each of its
/// queue families supports, and the names of the extensions it offers.
pub struct DeviceCandidate {
    pub kind: PhysicalDeviceKind,
    pub queue_families: Vec<QueueFamilySupport>,
    pub extensions: Vec<Vec<u8>>,
}

/// Discrete GPUs first, then integrated, then virtual, then anything else.
pub open spec fn kind_score(kind: PhysicalDeviceKind) -> int {
    match kind {
        PhysicalDeviceKind::DiscreteGpu => 1000,
        PhysicalDeviceKind::IntegratedGpu => 100,
        PhysicalDeviceKind::VirtualGpu => 50,
        PhysicalDeviceKind::Other => 1,
    }
}

/// A device can be used when it has graphics and present queue families and
/// every required extension.
pub open spec fn device_suitable(d: DeviceCandidate, required: Seq<Seq<u8>>) -> bool {
    &&& queue_selection(d.queue_families@) is Some
    &&& has_all_names(names_of(d.extensions@), required)
}

/// Device `i` is suitable, no suitable device scores higher, and every
/// suitable device before it scores lower.
pub open spec fn is_best_device(devices: Seq<DeviceCandidate>, required: Seq<Seq<u8>>, i: int) -> bool {
    &&& 0 <= i < devices.len()
    &&& device_suitable(devices[i], required)
    &&& forall|j: int|
        0 <= j < devices.len() && device_suitable(#[trigger] devices[j], required) ==> kind_score(
            devices[j].kind,
        ) <= kind_score(devices[i].kind)
    &&& forall|j: int|
        0 <= j < i && device_suitable(#[trigger] devices[j], required) ==> kind_score(
            devices[j].kind,
        ) < kind_score(devices[i].kind)
}

fn score_of(kind: PhysicalDeviceKind) -> (s: u32)
    ensures
        s == kind_score(kind),
{
    match kind {
        PhysicalDeviceKind::DiscreteGpu => 1000,
        PhysicalDeviceKind::IntegratedGpu => 100,
        PhysicalDeviceKind::VirtualGpu => 50,
        PhysicalDeviceKind::Other => 1,
    }
}

/// Pick the device to render with: among the suitable devices, one with the
/// highest score, the first such in the list.
pub fn pick_physical_device(devices: &[DeviceCandidate], required_extensions: &[Vec<u8>]) -> (r:
    Result<usize, RendererError>)
    ensures
        devices@.len() == 0 ==> r matches Err(RendererError::NoVulkanDevice),
        devices@.len() > 0 && (forall|j: int| 0 <= j < devices@.len() ==> !device_suitable(
            #[trigger] devices@[j],
            names_of(required_extensions@),
        )) ==> r matches Err(RendererError::NoSuitableDevice),
        r is Ok || r matches Err(RendererError::NoVulkanDevice) || r matches Err(
            RendererError::NoSuitableDevice,
        ),
        (exists|j: int| 0 <= j < devices@.len() && device_suitable(
            #[trigger] devices@[j],
            names_of(required_extensions@),
        )) ==> r is Ok,
        r matches Ok(i) ==> is_best_device(devices@, names_of(required_extensions@), i as int),
{
    if devices.len() == 0 {
        return Err(RendererError::NoVulkanDevice);
    }
    let ghost req = names_of(required_extensions@);
    let mut best: Option<(usize, u32)> = None;
    let mut i: usize = 0;
    while i < devices.len()
        invariant
            i <= devices@.len(),
            req == names_of(required_extensions@),
            match best {
                None => forall|j: int| 0 <= j < i ==> !device_suitable(#[trigger] devices@[j], req),
                Some((b, s)) => {
                    &&& b < i
                    &&& s == kind_score(devices@[b as int].kind)
                    &&& device_suitable(devices@[b as int], req)
                    &&& forall|j: int|
                        0 <= j < i && device_suitable(#[trigger] devices@[j], req) ==> kind_score(
                            devices@[j].kind,
                        ) <= s
                    &&& forall|j: int|
                        0 <= j < b && device_suitable(#[trigger] devices@[j], req) ==> kind_score(
                            devices@[j].kind,
                        ) < s
                },
            },
        decreases devices.len() - i,
    {
        let dev = &devices[i];
        let score = score_of(dev.kind);
        let queues_ok = find_queue_families(dev.queue_families.as_slice()).is_ok();
        let extensions_ok = if queues_ok {
            check_device_extensions(dev.extensions.as_slice(), required_extensions)
        } else {
            false
        };
        if queues_ok && extensions_ok {
            let better = match best {
                None => true,
                Some((_, s)) => score > s,
            };
            if better {
                best = Some((i, score));
            }
        }
        i += 1;
    }
    match best {
        Some((b, _)) => Ok(b),
        None => Err(RendererError::NoSuitableDevice),
    }
}

// ─── Layers and extensions ───────────────────────────────────────────────────

/// The name of the validation layer the engine enables.
pub open spec fn validation_layer_name() -> Seq<char> {
    "VK_LAYER_KHRONOS_validation"@
}

/// The validation layers the engine asks for.
pub fn validation_layers() -> (r: Vec<String>)
    ensures
        r@.len() == 1,
        r@[0]@ == validation_layer_name(),
{
    let mut r: Vec<String> = Vec::new();
    r.push(String::from_str("VK_LAYER_KHRONOS_validation"));
    r
}

/// The layers an instance or device is created with: the validation layers
/// when validation is on, none otherwise.
pub fn enabled_layers(enable_validation: bool) -> (r: Vec<String>)
    ensures
        enable_validation ==> r@.len() == 1 && r@[0]@ == validation_layer_name(),
        !enable_validation ==> r@.len() == 0,
{
    if enable_validation {
        validation_layers()
    } else {
        Vec::new()
    }
}

/// The instance extensions: those the window system needs, then the debug
/// utilities extension when validation is on.
pub fn instance_extensions(
    window_extensions: Vec<Vec<u8>>,
    debug_utils: Vec<u8>,
    enable_validation: bool,
) -> (r: Vec<Vec<u8>>)
    ensures
        enable_validation ==> r@ == window_extensions@.push(debug_utils),
        !enable_validation ==> r@ == window_extensions@,
{
    let mut r = window_extensions;
    if enable_validation {
        r.push(debug_utils);
    }
    r
}

pub open spec fn strings_of(v: Seq<String>) -> Seq<Seq<char>> {
    v.map_values(|s: String| s@)
}

fn contains_string(available: &[String], name: &String) -> (r: bool)
    ensures
        r == strings_of(available@).contains(name@),
{
    let mut j: usize = 0;
    while j < available.len()
        invariant
            j <= available@.len(),
            forall|k: int| 0 <= k < j ==> available@[k]@ != name@,
        decreases available.len() - j,
    {
        if available[j] == *name {
            assert(strings_of(available@)[j as int] == name@);
            return true;
        }
        j += 1;
    }
    assert forall|k: int| 0 <= k < strings_of(available@).len() implies strings_of(available@)[k]
        != name@ by {
        assert(available@[k]@ != name@);
    }
    false
}

/// Check that every validation layer the engine uses is installed; the
/// first one missing is named in the error.
pub fn check_validation_layers(available: &[String]) -> (r: Result<(), RendererError>)
    ensures
        strings_of(available@).contains(validation_layer_name()) ==> r is Ok,
        !strings_of(available@).contains(validation_layer_name()) ==> (r matches Err(
            RendererError::ValidationLayerMissing(name),
        ) && name@ == validation_layer_name()),
{
    let required = validation_layers();
    let mut i: usize = 0;
    while i < required.len()
        invariant
            required@.len() == 1,
            required@[0]@ == validation_layer_name(),
            i <= 1,
            i == 1 ==> strings_of(available@).contains(validation_layer_name()),
        decreases required.len() - i,
    {
        if !contains_string(available, &required[i]) {
            let missing = required[i].clone();
            return Err(RendererError::ValidationLayerMissing(missing));
        }
        i += 1;
    }
    Ok(())
}

// ─── Laws ────────────────────────────────────────────────────────────────────

proof fn lemma_last_family_meaning(families: Seq<QueueFamilySupport>, role: QueueRole)
    ensures
        match last_family(families, role) {
            Some(i) => 0 <= i < families.len() && fills_role(families[i], role) && forall|j: int|
                i < j < families.len() ==> !fills_role(#[trigger] families[j], role),
            None => forall|j: int| 0 <= j < families.len() ==> !fills_role(#[trigger] families[j], role),
        },
    decreases families.len(),
{
    if families.len() > 0 {
        lemma_last_family_meaning(families.drop_last(), role);
        assert forall|j: int| 0 <= j < families.len() - 1 implies families.drop_last()[j]
            == families[j] by {}
    }
}

/// The chosen families do their jobs: the graphics family has graphics, the
/// present family can present, and the transfer family is a dedicated
/// transfer family whenever the device has one, else the graphics family.
pub proof fn lemma_queue_selection_roles(families: Seq<QueueFamilySupport>)
    requires
        families.len() <= u32::MAX + 1,
        queue_selection(families) is Some,
    ensures
        ({
            let q = queue_selection(families)->0;
            &&& families[q.graphics as int].graphics
            &&& families[q.present as int].present
            &&& (exists|j: int| 0 <= j < families.len() && #[trigger] families[j].transfer
                && !families[j].graphics) ==> families[q.transfer as int].transfer
                && !families[q.transfer as int].graphics
            &&& (forall|j: int| 0 <= j < families.len() ==> !(#[trigger] families[j].transfer
                && !families[j].graphics)) ==> q.transfer == q.graphics
        }),
{
    lemma_last_family_meaning(families, QueueRole::Graphics);
    lemma_last_family_meaning(families, QueueRole::Present);
    lemma_last_family_meaning(families, QueueRole::DedicatedTransfer);
    let q = queue_selection(families)->0;
    if exists|j: int| 0 <= j < families.len() && #[trigger] families[j].transfer && !families[j].graphics {
        let j = choose|j: int| 0 <= j < families.len() && #[trigger] families[j].transfer && !families[j].graphics;
        assert(fills_role(families[j], QueueRole::DedicatedTransfer));
    }
}

/// A suitable discrete GPU is always preferred: when there is one, the
/// device picked is discrete.
pub proof fn lemma_discrete_gpu_preferred(
    devices: Seq<DeviceCandidate>,
    required: Seq<Seq<u8>>,
    picked: int,
    discrete: int,
)
    requires
        is_best_device(devices, required, picked),
        0 <= discrete < devices.len(),
        devices[discrete].kind == PhysicalDeviceKind::DiscreteGpu,
        device_suitable(devices[discrete], required),
    ensures
        devices[picked].kind == PhysicalDeviceKind::DiscreteGpu,
{
    assert(kind_score(devices[discrete].kind) <= kind_score(devices[picked].kind));
}

/// Among devices of equal standing the earliest is picked: the choice is
/// unique.
pub proof fn lemma_best_device_unique(
    devices: Seq<DeviceCandidate>,
    required: Seq<Seq<u8>>,
    a: int,
    b: int,
)
    requires
        is_best_device(devices, required, a),
        is_best_device(devices, required, b),
    ensures
        a == b,
{
    if a < b {
        assert(kind_score(devices[a].kind) < kind_score(devices[b].kind));
    } else if b < a {
        assert(kind_score(devices[b].kind) < kind_score(devices[a].kind));
    }
}

/// The ranking of device kinds: a discrete GPU scores 1000, an integrated
/// GPU 100, a virtual GPU 50 and any other device (such as a software
/// rasteriser) 1, so each kind outranks the ones after it.
pub proof fn lemma_kind_ranking()
    ensures
        kind_score(PhysicalDeviceKind::DiscreteGpu) == 1000,
        kind_score(PhysicalDeviceKind::IntegratedGpu) == 100,
        kind_score(PhysicalDeviceKind::VirtualGpu) == 50,
        kind_score(PhysicalDeviceKind::Other) == 1,
        kind_score(PhysicalDeviceKind::DiscreteGpu) > kind_score(PhysicalDeviceKind::IntegratedGpu),
        kind_score(PhysicalDeviceKind::IntegratedGpu) > kind_score(PhysicalDeviceKind::VirtualGpu),
        kind_score(PhysicalDeviceKind::VirtualGpu) > kind_score(PhysicalDeviceKind::Other),
{
}

/// Where a suitable integrated GPU is on offer, the device picked is a
/// discrete or an integrated GPU, never a virtual GPU or another kind of
/// device.
pub proof fn lemma_integrated_gpu_beats_virtual_and_other(
    devices: Seq<DeviceCandidate>,
    required: Seq<Seq<u8>>,
    picked: int,
    integrated: int,
)
    requires
        is_best_device(devices, required, picked),
        0 <= integrated < devices.len(),
        devices[integrated].kind == PhysicalDeviceKind::IntegratedGpu,
        device_suitable(devices[integrated], required),
    ensures
        devices[picked].kind == PhysicalDeviceKind::DiscreteGpu || devices[picked].kind
            == PhysicalDeviceKind::IntegratedGpu,
{
    lemma_kind_ranking();
    assert(kind_score(devices[integrated].kind) <= kind_score(devices[picked].kind));
}

/// Families are found when some family has graphics and some family can
/// present; each role then goes to the last family in the list that fills
/// it: no later family has graphics, none can present, and no later family
/// is a dedicated transfer family.
pub proof fn lemma_queue_selection_takes_last(families: Seq<QueueFamilySupport>)
    requires
        families.len() <= u32::MAX + 1,
    ensures
        queue_selection(families) is Some <==> ((exists|j: int|
            0 <= j < families.len() && #[trigger] families[j].graphics) && (exists|j: int|
            0 <= j < families.len() && #[trigger] families[j].present)),
        queue_selection(families) is Some ==> ({
            let q = queue_selection(families)->0;
            &&& forall|j: int| q.graphics < j < families.len() ==> !(#[trigger] families[j]).graphics
            &&& forall|j: int| q.present < j < families.len() ==> !(#[trigger] families[j]).present
            &&& q.transfer != q.graphics ==> forall|j: int|
                q.transfer < j < families.len() ==> !((#[trigger] families[j]).transfer
                    && !families[j].graphics)
        }),
{
    lemma_last_family_meaning(families, QueueRole::Graphics);
    lemma_last_family_meaning(families, QueueRole::Present);
    lemma_last_family_meaning(families, QueueRole::DedicatedTransfer);
    if exists|j: int| 0 <= j < families.len() && #[trigger] families[j].graphics {
        let j = choose|j: int| 0 <= j < families.len() && #[trigger] families[j].graphics;
        assert(fills_role(families[j], QueueRole::Graphics));
    }
    if exists|j: int| 0 <= j < families.len() && #[trigger] families[j].present {
        let j = choose|j: int| 0 <= j < families.len() && #[trigger] families[j].present;
        assert(fills_role(families[j], QueueRole::Present));
    }
    if queue_selection(families) is Some {
        let g = last_family(families, QueueRole::Graphics)->0;
        let p = last_family(families, QueueRole::Present)->0;
        assert(families[g].graphics);
        assert(families[p].present);
        let q = queue_selection(families)->0;
        assert(q.graphics as int == g);
        assert(q.present as int == p);
        assert forall|j: int| q.graphics < j < families.len() implies !(#[trigger] families[j]).graphics by {
            assert(!fills_role(families[j], QueueRole::Graphics));
        }
        assert forall|j: int| q.present < j < families.len() implies !(#[trigger] families[j]).present by {
            assert(!fills_role(families[j], QueueRole::Present));
        }
        if q.transfer != q.graphics {
            let t = last_family(families, QueueRole::DedicatedTransfer)->0;
            assert(last_family(families, QueueRole::DedicatedTransfer) is Some);
            assert(q.transfer as int == t);
            assert forall|j: int| q.transfer < j < families.len() implies !((#[trigger] families[j]).transfer
                && !families[j].graphics) by {
                assert(!fills_role(families[j], QueueRole::DedicatedTransfer));
            }
        }
    }
}

} // verus!

//! Choosing a device memory type for a buffer or image, and sizing uploads.

use vstd::prelude::*;

verus! {

/// Memory that lives on the device (`VK_MEMORY_PROPERTY_DEVICE_LOCAL_BIT`).
pub const MEMORY_DEVICE_LOCAL: u32 = 0x1;

/// Memory the host can map (`VK_MEMORY_PROPERTY_HOST_VISIBLE_BIT`).
pub const MEMORY_HOST_VISIBLE: u32 = 0x2;

/// Host writes need no flush (`VK_MEMORY_PROPERTY_HOST_COHERENT_BIT`).
pub const MEMORY_HOST_COHERENT: u32 = 0x4;

/// Vulkan reports at most this many memory types (`VK_MAX_MEMORY_TYPES`).
pub const MAX_MEMORY_TYPES: usize = 32;

/// Bit `i` of a resource's memory-type mask allows memory type `i`.
pub open spec fn type_allowed(type_filter: u32, i: u32) -> bool {
    type_filter & (1u32 << i) != 0
}

/// A set of property flags holds every wanted flag.
pub open spec fn has_flags(flags: u32, wanted: u32) -> bool {
    flags & wanted == wanted
}

/// Memory type `i` may back the resource and has the wanted properties.
pub open spec fn memory_type_fits(type_filter: u32, type_flags: Seq<u32>, wanted: u32, i: int) -> bool {
    &&& 0 <= i < type_flags.len()
    &&& type_allowed(type_filter, i as u32)
    &&& has_flags(type_flags[i], wanted)
}

/// The first memory type that the resource allows and that has every
/// wanted property; `type_flags` holds the property flags of each memory
/// type the device reports, in order.
pub fn find_memory_type(type_filter: u32, type_flags: &[u32], wanted: u32) -> (r: Option<u32>)
    requires
        type_flags@.len() <= MAX_MEMORY_TYPES,
    ensures
        match r {
            Some(i) => {
                &&& memory_type_fits(type_filter, type_flags@, wanted, i as int)
                &&& forall|j: int|
                    0 <= j < i ==> !memory_type_fits(type_filter, type_flags@, wanted, j)
            },
            None => forall|j: int|
                0 <= j < type_flags@.len() ==> !memory_type_fits(
                    type_filter,
                    type_flags@,
                    wanted,
                    j,
                ),
        },
{
    let count = type_flags.len() as u32;
    let mut i: u32 = 0;
    while i < count
        invariant
            count == type_flags@.len() <= 32,
            i <= count,
            forall|j: int| 0 <= j < i ==> !memory_type_fits(type_filter, type_flags@, wanted, j),
        decreases count - i,
    {
        let type_supported = (type_filter & (1u32 << i)) != 0;
        let properties_match = (type_flags[i as usize] & wanted) == wanted;
        if type_supported && properties_match {
            return Some(i);
        }
        i += 1;
    }
    None
}

/// The byte size of an upload of `count` elements of `element_size` bytes.
pub fn upload_size(element_size: usize, count: usize) -> (r: u64)
    requires
        element_size * count <= usize::MAX,
    ensures
        r == element_size * count,
{
    (element_size * count) as u64
}

} // verus!

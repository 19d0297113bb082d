//! Regions of the machine that are mapped to themselves, and why a memory
//! set may fail to be built.

use crate::address::{page_ceil, page_floor, VirtAddr};
use crate::machine::Device;
use crate::mm::map_area::{spec_identity_shape, AreaShape};
use vstd::prelude::*;

verus! {

/// Why a memory set could not be built.
#[derive(Copy, Clone, PartialEq, Eq, Debug, Structural)]
pub enum MemorySetError {
    /// A section of the hypervisor's image ends before the page it starts in.
    BadLayout,
    /// A region of the machine does not fit in the address space.
    RegionOverflow,
    /// No frame is left for a framed page.
    OutOfFrames,
    /// The guest image is no valid 64-bit ELF image.
    InvalidImage,
    /// A segment of the guest image lies outside the image, wraps the address
    /// space, or covers another number of pages than its memory size takes.
    BadSegment,
    /// The segments of the guest image need more memory than the guest has,
    /// or more than is at hand.
    TooLarge,
}

/// The region of `dev` with `extra` bytes added at its end, if there is a
/// device.
pub open spec fn spec_opt_region(dev: Option<Device>, extra: int) -> Seq<(u64, u64)> {
    match dev {
        Some(d) => seq![(d.base_address, (d.base_address + d.size + extra) as u64)],
        None => Seq::<(u64, u64)>::empty(),
    }
}

/// The `len` bytes from the base of `dev` on, if there is a device.
pub open spec fn spec_opt_fixed(dev: Option<Device>, len: int) -> Seq<(u64, u64)> {
    match dev {
        Some(d) => seq![(d.base_address, (d.base_address + len) as u64)],
        None => Seq::<(u64, u64)>::empty(),
    }
}

/// The regions of `devs`, in order.
pub open spec fn spec_device_regions(devs: Seq<Device>) -> Seq<(u64, u64)> {
    Seq::new(devs.len(), |i: int| (devs[i].base_address, (devs[i].spec_end()) as u64))
}

/// Whether the region of `dev` with `extra` bytes added ends inside the
/// address space.
pub open spec fn spec_opt_fits(dev: Option<Device>, extra: int) -> bool {
    dev matches Some(d) ==> d.base_address + d.size + extra <= u64::MAX
}

/// Whether `len` bytes from the base of `dev` on end inside the address
/// space.
pub open spec fn spec_fixed_fits(dev: Option<Device>, len: int) -> bool {
    dev matches Some(d) ==> d.base_address + len <= u64::MAX
}

/// Whether the region of each of `devs` ends inside the address space.
pub open spec fn spec_devices_fit(devs: Seq<Device>) -> bool {
    forall|i: int| 0 <= i < devs.len() ==> (#[trigger] devs[i]).spec_end() <= u64::MAX
}

/// The shapes of the areas that map each of `regions` to itself, in order.
pub open spec fn spec_identity_shapes(regions: Seq<(u64, u64)>, perm: u8) -> Seq<AreaShape> {
    Seq::new(
        regions.len(),
        |i: int| spec_identity_shape(regions[i].0 as int, regions[i].1 as int, perm),
    )
}

/// Whether a region that starts at `start` and ends at `end` touches an
/// ordered run of pages.
pub open spec fn spec_ordered(start: int, end: int) -> bool {
    page_floor(start) <= page_ceil(end)
}

/// Whether the shape `shape` holds the page `v`.
pub open spec fn spec_shape_holds(shape: AreaShape, v: u64) -> bool {
    shape.vpn_range.contains(v)
}

/// Whether one of `shapes` holds the page `v`.
pub open spec fn spec_shapes_hold(shapes: Seq<AreaShape>, v: u64) -> bool {
    exists|j: int| 0 <= j < shapes.len() && spec_shape_holds(#[trigger] shapes[j], v)
}

/// Appends the region of `dev`, with `extra` bytes added at its end, to
/// `regions`, and says whether the region fits in the address space.
pub(crate) fn add_device(regions: &mut Vec<(u64, u64)>, dev: &Option<Device>, extra: u64) -> (ok: bool)
    ensures
        ok == spec_opt_fits(*dev, extra as int),
        ok ==> final(regions)@ == old(regions)@ + spec_opt_region(*dev, extra as int),
        !ok ==> final(regions)@ == old(regions)@,
{
    match dev {
        Some(d) => {
            if d.size > u64::MAX - d.base_address || extra > u64::MAX - d.base_address - d.size {
                false
            } else {
                regions.push((d.base_address, d.base_address + d.size + extra));
                assert(regions@ =~= old(regions)@ + spec_opt_region(*dev, extra as int));
                true
            }
        },
        None => {
            assert(regions@ =~= old(regions)@ + spec_opt_region(*dev, extra as int));
            true
        },
    }
}

/// Appends the `len` bytes from the base of `dev` on to `regions`, and says
/// whether they fit in the address space.
pub(crate) fn add_fixed(regions: &mut Vec<(u64, u64)>, dev: &Option<Device>, len: u64) -> (ok: bool)
    ensures
        ok == spec_fixed_fits(*dev, len as int),
        ok ==> final(regions)@ == old(regions)@ + spec_opt_fixed(*dev, len as int),
        !ok ==> final(regions)@ == old(regions)@,
{
    match dev {
        Some(d) => {
            if len > u64::MAX - d.base_address {
                false
            } else {
                regions.push((d.base_address, d.base_address + len));
                assert(regions@ =~= old(regions)@ + spec_opt_fixed(*dev, len as int));
                true
            }
        },
        None => {
            assert(regions@ =~= old(regions)@ + spec_opt_fixed(*dev, len as int));
            true
        },
    }
}

/// Appends the regions of `devs` to `regions`, and says whether they all fit
/// in the address space.  Where one does not, `regions` holds the regions of
/// those before it.
pub(crate) fn add_devices(regions: &mut Vec<(u64, u64)>, devs: &Vec<Device>) -> (ok: bool)
    ensures
        ok == spec_devices_fit(devs@),
        ok ==> final(regions)@ == old(regions)@ + spec_device_regions(devs@),
{
    let mut i: usize = 0;
    while i < devs.len()
        invariant
            i <= devs@.len(),
            spec_devices_fit(devs@.subrange(0, i as int)),
            regions@ == old(regions)@ + spec_device_regions(devs@.subrange(0, i as int)),
        decreases devs@.len() - i,
    {
        let d: Device = devs[i];
        if d.size > u64::MAX - d.base_address {
            assert(!(devs@[i as int].spec_end() <= u64::MAX));
            return false;
        }
        regions.push((d.base_address, d.base_address + d.size));
        i = i + 1;
        assert(regions@ =~= old(regions)@ + spec_device_regions(devs@.subrange(0, i as int)));
        assert forall|k: int| 0 <= k < i implies (#[trigger] devs@.subrange(
            0,
            i as int,
        )[k]).spec_end() <= u64::MAX by {
            if k < i - 1 {
                assert(devs@.subrange(0, i - 1)[k].spec_end() <= u64::MAX);
            }
        }
    }
    assert(devs@.subrange(0, i as int) =~= devs@);
    true
}

/// Whether each of `regions` touches an ordered run of pages.
pub open spec fn spec_regions_ordered(regions: Seq<(u64, u64)>) -> bool {
    forall|i: int|
        0 <= i < regions.len() ==> spec_ordered(
            (#[trigger] regions[i]).0 as int,
            regions[i].1 as int,
        )
}

/// Whether a region that starts at `start` and ends at `end` touches an
/// ordered run of pages.
pub(crate) fn ordered(start: u64, end: u64) -> (b: bool)
    ensures
        b == spec_ordered(start as int, end as int),
{
    VirtAddr(start).floor().0 <= VirtAddr(end).ceil().0
}

/// Regions that end at or after their start are ordered, and a list of
/// ordered regions stays ordered when such regions are appended.
pub proof fn lemma_regions_ordered(head: Seq<(u64, u64)>, tail: Seq<(u64, u64)>)
    requires
        forall|i: int| 0 <= i < tail.len() ==> (#[trigger] tail[i]).0 <= tail[i].1,
        spec_regions_ordered(head),
    ensures
        spec_regions_ordered(head + tail),
{
    assert forall|i: int| 0 <= i < (head + tail).len() implies spec_ordered(
        (#[trigger] (head + tail)[i]).0 as int,
        (head + tail)[i].1 as int,
    ) by {
        if i < head.len() {
            assert((head + tail)[i] == head[i]);
        } else {
            assert((head + tail)[i] == tail[i - head.len()]);
        }
    }
}

} // verus!

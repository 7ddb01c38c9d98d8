//! Translation of portable resource barriers into native barriers.

use vstd::prelude::*;
use crate::copy::ImageInfo;
use crate::native::{ResourceBarrier, ALL_SUBRESOURCES};

verus! {

/// Aspects of an image.
#[derive(Debug, Clone, Copy, PartialEq, Eq, Structural)]
pub struct Aspects {
    pub color: bool,
    pub depth: bool,
    pub stencil: bool,
}

/// Mip levels `level_start..level_end` and array layers
/// `layer_start..layer_end` of some aspects of an image.
#[derive(Debug, Clone, Copy, PartialEq, Eq, Structural)]
pub struct SubresourceRange {
    pub aspects: Aspects,
    pub level_start: u32,
    pub level_end: u32,
    pub layer_start: u32,
    pub layer_end: u32,
}

impl SubresourceRange {
    /// Whether the range covers every level and layer of `img`.
    pub open spec fn is_whole(&self, img: ImageInfo) -> bool {
        &&& self.level_start == 0
        &&& self.level_end == img.levels
        &&& self.layer_start == 0
        &&& self.layer_end == img.layers
    }

    /// The range lies inside `img`.
    pub open spec fn within(&self, img: ImageInfo) -> bool {
        &&& self.level_start <= self.level_end <= img.levels
        &&& self.layer_start <= self.layer_end <= img.layers
    }
}

/// The range of `aspects` that covers the whole of `img`.
pub fn whole_range(img: &ImageInfo, aspects: Aspects) -> (r: SubresourceRange)
    ensures
        r.aspects == aspects,
        r.is_whole(*img),
{
    SubresourceRange {
        aspects,
        level_start: 0,
        level_end: img.levels,
        layer_start: 0,
        layer_end: img.layers,
    }
}

/// A portable barrier. States are native resource-state masks.
#[derive(Debug, Clone, Copy, PartialEq, Eq, Structural)]
pub enum Barrier {
    /// A global memory barrier over all buffers.
    AllBuffers,
    /// A global memory barrier over all images.
    AllImages,
    /// A state transition of a whole buffer.
    Buffer { resource: u64, before: u32, after: u32 },
    /// A state transition of a subresource range of an image.
    Image { target: ImageInfo, range: SubresourceRange, before: u32, after: u32 },
}

/// The barrier is one that translation accepts: an image barrier's range
/// lies inside a well-formed image.
pub open spec fn barrier_ok(b: Barrier) -> bool {
    match b {
        Barrier::Image { target, range, .. } => target.wf() && range.within(target),
        _ => true,
    }
}

/// Transition of subresource `sub` of `resource`.
pub open spec fn transition(resource: u64, sub: int, before: u32, after: u32) -> ResourceBarrier {
    ResourceBarrier::Transition { resource, subresource: sub as u32, before, after, flags: 0 }
}

/// Transitions of layers `start..upto` of mip `level`.
pub open spec fn layer_transitions(
    img: ImageInfo,
    level: int,
    start: int,
    upto: int,
    before: u32,
    after: u32,
) -> Seq<ResourceBarrier>
    decreases upto - start,
{
    if upto <= start {
        Seq::empty()
    } else {
        layer_transitions(img, level, start, upto - 1, before, after).push(
            transition(img.resource, img.subresource(level, upto - 1), before, after),
        )
    }
}

/// Transitions of every layer in `range` of the levels `range.level_start..upto`.
pub open spec fn level_transitions(
    img: ImageInfo,
    range: SubresourceRange,
    upto: int,
    before: u32,
    after: u32,
) -> Seq<ResourceBarrier>
    decreases upto - range.level_start,
{
    if upto <= range.level_start {
        Seq::empty()
    } else {
        level_transitions(img, range, upto - 1, before, after) + layer_transitions(
            img,
            upto - 1,
            range.layer_start as int,
            range.layer_end as int,
            before,
            after,
        )
    }
}

/// The native barriers for one portable barrier: a global UAV barrier for
/// a global barrier; nothing for a transition between equal states; one
/// whole-resource transition for a buffer or a whole image; one transition
/// per level and layer otherwise.
pub open spec fn translate(b: Barrier) -> Seq<ResourceBarrier> {
    match b {
        Barrier::AllBuffers => seq![ResourceBarrier::Uav { resource: None }],
        Barrier::AllImages => seq![ResourceBarrier::Uav { resource: None }],
        Barrier::Buffer { resource, before, after } => if before == after {
            Seq::empty()
        } else {
            seq![transition(resource, ALL_SUBRESOURCES as int, before, after)]
        },
        Barrier::Image { target, range, before, after } => if before == after {
            Seq::empty()
        } else if range.is_whole(target) {
            seq![transition(target.resource, ALL_SUBRESOURCES as int, before, after)]
        } else {
            level_transitions(target, range, range.level_end as int, before, after)
        },
    }
}

/// The native barriers for `barriers[0..n]`.
pub open spec fn translate_all(barriers: Seq<Barrier>, n: int) -> Seq<ResourceBarrier>
    decreases n,
{
    if n <= 0 {
        Seq::empty()
    } else {
        translate_all(barriers, n - 1) + translate(barriers[n - 1])
    }
}

/// The full batch for a pipeline barrier: the translated barriers, then
/// one global UAV barrier and one global aliasing barrier.
pub open spec fn barrier_batch(barriers: Seq<Barrier>) -> Seq<ResourceBarrier> {
    translate_all(barriers, barriers.len() as int) + seq![
        ResourceBarrier::Uav { resource: None },
        ResourceBarrier::Aliasing { before: None, after: None },
    ]
}

/// Appends the native barriers for `b` to `out`.
fn push_translated(out: &mut Vec<ResourceBarrier>, b: &Barrier)
    requires
        barrier_ok(*b),
    ensures
        final(out)@ == old(out)@ + translate(*b),
{
    match *b {
        Barrier::AllBuffers | Barrier::AllImages => {
            out.push(ResourceBarrier::Uav { resource: None });
        },
        Barrier::Buffer { resource, before, after } => {
            if before != after {
                out.push(ResourceBarrier::transition(resource, ALL_SUBRESOURCES, before, after));
            } else {
                assert(out@ =~= old(out)@ + translate(*b));
            }
        },
        Barrier::Image { target, range, before, after } => {
            if before == after {
                assert(out@ =~= old(out)@ + translate(*b));
                return ;
            }
            if range.level_start == 0 && range.level_end == target.levels && range.layer_start == 0
                && range.layer_end == target.layers {
                out.push(ResourceBarrier::transition(target.resource, ALL_SUBRESOURCES, before, after));
                return ;
            }
            let ghost start = out@;
            let mut level = range.level_start;
            while level < range.level_end
                invariant
                    target.wf(),
                    range.within(target),
                    range.level_start <= level <= range.level_end,
                    out@ == start + level_transitions(target, range, level as int, before, after),
                decreases range.level_end - level,
            {
                let ghost mid = out@;
                let mut layer = range.layer_start;
                while layer < range.layer_end
                    invariant
                        target.wf(),
                        range.within(target),
                        range.level_start <= level < range.level_end,
                        range.layer_start <= layer <= range.layer_end,
                        out@ == mid + layer_transitions(
                            target,
                            level as int,
                            range.layer_start as int,
                            layer as int,
                            before,
                            after,
                        ),
                    decreases range.layer_end - layer,
                {
                    let sub = target.calc_subresource(level, layer);
                    out.push(ResourceBarrier::transition(target.resource, sub, before, after));
                    layer = layer + 1;
                }
                proof {
                    assert(out@ =~= start + level_transitions(target, range, level + 1, before, after));
                }
                level = level + 1;
            }
        },
    }
}

/// Translates `barriers` into one native batch (see `barrier_batch`).
pub fn translate_barriers(barriers: &[Barrier]) -> (r: Vec<ResourceBarrier>)
    requires
        forall|j: int| 0 <= j < barriers@.len() ==> barrier_ok(#[trigger] barriers@[j]),
    ensures
        r@ == barrier_batch(barriers@),
{
    let mut out: Vec<ResourceBarrier> = Vec::new();
    let mut j: usize = 0;
    while j < barriers.len()
        invariant
            forall|k: int| 0 <= k < barriers@.len() ==> barrier_ok(#[trigger] barriers@[k]),
            0 <= j <= barriers@.len(),
            out@ == translate_all(barriers@, j as int),
        decreases barriers@.len() - j,
    {
        push_translated(&mut out, &barriers[j]);
        j = j + 1;
    }
    out.push(ResourceBarrier::Uav { resource: None });
    out.push(ResourceBarrier::Aliasing { before: None, after: None });
    proof {
        assert(out@ =~= barrier_batch(barriers@));
    }
    out
}

} // verus!

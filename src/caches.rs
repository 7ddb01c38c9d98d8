//! Viewport and scissor caches. The native list only takes all viewports
//! (or all scissors) at once, so partial updates are merged into a cache
//! held in a small inline vector.

use vstd::prelude::*;
use smallvec::SmallVec;
use crate::native::{NativeRect, NativeViewport};

verus! {

/// Viewport cache, an inline vector of up to 16 viewports before it spills.
#[verifier::external_body]
pub struct ViewportCache {
    items: SmallVec<[NativeViewport; 16]>,
}

/// Scissor cache, an inline vector of up to 16 rectangles before it spills.
#[verifier::external_body]
pub struct ScissorCache {
    items: SmallVec<[NativeRect; 16]>,
}

/// The viewports that a viewport cache holds, in order.
pub uninterp spec fn viewport_items(v: ViewportCache) -> Seq<NativeViewport>;

/// The rectangles that a scissor cache holds, in order.
pub uninterp spec fn scissor_items(v: ScissorCache) -> Seq<NativeRect>;

/// Relies on `SmallVec::new`: a new vector holds nothing.
#[verifier::external_body]
pub(crate) fn viewports_new() -> (r: ViewportCache)
    ensures
        viewport_items(r) == Seq::<NativeViewport>::empty(),
{
    ViewportCache { items: SmallVec::new() }
}

/// Relies on `SmallVec::len`: the number of items held.
#[verifier::external_body]
pub(crate) fn viewports_len(v: &ViewportCache) -> (r: usize)
    ensures
        r == viewport_items(*v).len(),
{
    v.items.len()
}

/// Relies on `SmallVec::push`: appends one item at the end.
#[verifier::external_body]
pub(crate) fn viewports_push(v: &mut ViewportCache, x: NativeViewport)
    ensures
        viewport_items(*final(v)) == viewport_items(*old(v)).push(x),
{
    v.items.push(x)
}

/// Relies on `SmallVec`'s `IndexMut<usize>`: replaces the item at `i`.
#[verifier::external_body]
pub(crate) fn viewports_set(v: &mut ViewportCache, i: usize, x: NativeViewport)
    requires
        i < viewport_items(*old(v)).len(),
    ensures
        viewport_items(*final(v)) == viewport_items(*old(v)).update(i as int, x),
{
    v.items[i] = x;
}

/// Relies on `SmallVec::as_slice`: the items held, in order.
#[verifier::external_body]
pub(crate) fn viewports_to_vec(v: &ViewportCache) -> (r: Vec<NativeViewport>)
    ensures
        r@ == viewport_items(*v),
{
    v.items.as_slice().to_vec()
}

/// Relies on `SmallVec::new`: a new vector holds nothing.
#[verifier::external_body]
pub(crate) fn scissors_new() -> (r: ScissorCache)
    ensures
        scissor_items(r) == Seq::<NativeRect>::empty(),
{
    ScissorCache { items: SmallVec::new() }
}

/// Relies on `SmallVec::len`: the number of items held.
#[verifier::external_body]
pub(crate) fn scissors_len(v: &ScissorCache) -> (r: usize)
    ensures
        r == scissor_items(*v).len(),
{
    v.items.len()
}

/// Relies on `SmallVec::push`: appends one item at the end.
#[verifier::external_body]
pub(crate) fn scissors_push(v: &mut ScissorCache, x: NativeRect)
    ensures
        scissor_items(*final(v)) == scissor_items(*old(v)).push(x),
{
    v.items.push(x)
}

/// Relies on `SmallVec`'s `IndexMut<usize>`: replaces the item at `i`.
#[verifier::external_body]
pub(crate) fn scissors_set(v: &mut ScissorCache, i: usize, x: NativeRect)
    requires
        i < scissor_items(*old(v)).len(),
    ensures
        scissor_items(*final(v)) == scissor_items(*old(v)).update(i as int, x),
{
    v.items[i] = x;
}

/// Relies on `SmallVec::as_slice`: the items held, in order.
#[verifier::external_body]
pub(crate) fn scissors_to_vec(v: &ScissorCache) -> (r: Vec<NativeRect>)
    ensures
        r@ == scissor_items(*v),
{
    v.items.as_slice().to_vec()
}

/// The cache after writing `items` from index `first` on: an item whose
/// index is past the end is appended instead.
pub open spec fn merged<T>(cache: Seq<T>, first: int, items: Seq<T>) -> Seq<T>
    decreases items.len(),
{
    if items.len() == 0 {
        cache
    } else {
        let prev = merged(cache, first, items.drop_last());
        let i = items.len() - 1;
        if i + first >= prev.len() {
            prev.push(items.last())
        } else {
            prev.update(i + first, items.last())
        }
    }
}

pub proof fn lemma_merged_len<T>(cache: Seq<T>, first: int, items: Seq<T>)
    requires
        first >= 0,
    ensures
        cache.len() <= merged(cache, first, items).len() <= cache.len() + items.len(),
    decreases items.len(),
{
    if items.len() > 0 {
        lemma_merged_len(cache, first, items.drop_last());
    }
}

/// Writes `viewports` into the cache from index `first` on.
pub fn merge_viewports(
    cache: &mut ViewportCache,
    first: u32,
    viewports: &[NativeViewport],
)
    requires
        viewport_items(*old(cache)).len() + viewports@.len() <= usize::MAX,
        first + viewports@.len() <= usize::MAX,
    ensures
        viewport_items(*final(cache)) == merged(viewport_items(*old(cache)), first as int, viewports@),
{
    let mut i: usize = 0;
    while i < viewports.len()
        invariant
            viewport_items(*old(cache)).len() + viewports@.len() <= usize::MAX,
            first + viewports@.len() <= usize::MAX,
            0 <= i <= viewports@.len(),
            viewport_items(*cache) == merged(
                viewport_items(*old(cache)),
                first as int,
                viewports@.take(i as int),
            ),
        decreases viewports@.len() - i,
    {
        proof {
            assert(viewports@.take(i + 1).drop_last() =~= viewports@.take(i as int));
            lemma_merged_len(viewport_items(*old(cache)), first as int, viewports@.take(i as int));
        }
        let len = viewports_len(cache);
        if i + first as usize >= len {
            viewports_push(cache, viewports[i]);
        } else {
            viewports_set(cache, i + first as usize, viewports[i]);
        }
        i = i + 1;
    }
    proof {
        assert(viewports@.take(i as int) =~= viewports@);
    }
}

/// Writes `rects` into the cache from index `first` on.
pub fn merge_scissors(cache: &mut ScissorCache, first: u32, rects: &[NativeRect])
    requires
        scissor_items(*old(cache)).len() + rects@.len() <= usize::MAX,
        first + rects@.len() <= usize::MAX,
    ensures
        scissor_items(*final(cache)) == merged(scissor_items(*old(cache)), first as int, rects@),
{
    let mut i: usize = 0;
    while i < rects.len()
        invariant
            scissor_items(*old(cache)).len() + rects@.len() <= usize::MAX,
            first + rects@.len() <= usize::MAX,
            0 <= i <= rects@.len(),
            scissor_items(*cache) == merged(
                scissor_items(*old(cache)),
                first as int,
                rects@.take(i as int),
            ),
        decreases rects@.len() - i,
    {
        proof {
            assert(rects@.take(i + 1).drop_last() =~= rects@.take(i as int));
            lemma_merged_len(scissor_items(*old(cache)), first as int, rects@.take(i as int));
        }
        let len = scissors_len(cache);
        if i + first as usize >= len {
            scissors_push(cache, rects[i]);
        } else {
            scissors_set(cache, i + first as usize, rects[i]);
        }
        i = i + 1;
    }
    proof {
        assert(rects@.take(i as int) =~= rects@);
    }
}

} // verus!

//! Render-pass descriptions, the per-pass cache and its clear plan, and the
//! commands that entering a subpass emits.

use vstd::prelude::*;
use crate::native::{ClearValueRaw, NativeOp, NativeRect, ResourceBarrier, ALL_SUBRESOURCES};

verus! {

/// Load operation of an attachment aspect.
#[derive(Debug, Clone, Copy, PartialEq, Eq, Structural)]
pub enum LoadOp {
    Load,
    Clear,
    DontCare,
}

/// Image layouts that subpass references declare.
#[derive(Debug, Clone, Copy, PartialEq, Eq, Structural)]
pub enum Layout {
    General,
    ColorAttachmentOptimal,
    DepthStencilAttachmentOptimal,
    DepthStencilReadOnlyOptimal,
    ShaderReadOnlyOptimal,
    TransferSrcOptimal,
    TransferDstOptimal,
    Undefined,
    Preinitialized,
    Present,
}

/// Load operations of one render-pass attachment.
#[derive(Debug, Clone, Copy, PartialEq, Eq, Structural)]
pub struct Attachment {
    pub load: LoadOp,
    pub stencil_load: LoadOp,
}

/// A subpass reference to attachment `id` in layout `layout`.
#[derive(Debug, Clone, Copy, PartialEq, Eq, Structural)]
pub struct AttachmentRef {
    pub id: usize,
    pub layout: Layout,
}

/// A precomputed transition of attachment `attachment_id`.
#[derive(Debug, Clone, Copy, PartialEq, Eq, Structural)]
pub struct BarrierDesc {
    pub attachment_id: usize,
    pub before: u32,
    pub after: u32,
    pub flags: u32,
}

/// One subpass: its attachment references and the barriers that precede it.
#[derive(Debug, Clone)]
pub struct Subpass {
    pub color_attachments: Vec<AttachmentRef>,
    pub depth_stencil_attachment: Option<AttachmentRef>,
    pub input_attachments: Vec<AttachmentRef>,
    pub pre_barriers: Vec<BarrierDesc>,
}

impl Subpass {
    /// Whether the subpass references attachment `id`.
    pub open spec fn uses(&self, id: int) -> bool {
        ||| exists|j: int|
            0 <= j < self.color_attachments@.len() && #[trigger] self.color_attachments@[j].id == id
        ||| self.depth_stencil_attachment is Some && self.depth_stencil_attachment->0.id == id
        ||| exists|j: int|
            0 <= j < self.input_attachments@.len() && #[trigger] self.input_attachments@[j].id == id
    }

    /// Whether any reference of the subpass declares the presentable layout.
    pub open spec fn uses_present(&self) -> bool {
        ||| exists|j: int|
            0 <= j < self.color_attachments@.len() && #[trigger] self.color_attachments@[j].layout
                == Layout::Present
        ||| self.depth_stencil_attachment is Some && self.depth_stencil_attachment->0.layout
            == Layout::Present
        ||| exists|j: int|
            0 <= j < self.input_attachments@.len() && #[trigger] self.input_attachments@[j].layout
                == Layout::Present
    }

    /// Whether the subpass references attachment `id`.
    pub fn is_using(&self, id: usize) -> (r: bool)
        ensures
            r == self.uses(id as int),
    {
        let mut j: usize = 0;
        while j < self.color_attachments.len()
            invariant
                0 <= j <= self.color_attachments@.len(),
                forall|k: int| 0 <= k < j ==> #[trigger] self.color_attachments@[k].id != id,
            decreases self.color_attachments@.len() - j,
        {
            if self.color_attachments[j].id == id {
                return true;
            }
            j = j + 1;
        }
        match self.depth_stencil_attachment {
            Some(r) => {
                if r.id == id {
                    return true;
                }
            },
            None => {},
        }
        let mut j: usize = 0;
        while j < self.input_attachments.len()
            invariant
                0 <= j <= self.input_attachments@.len(),
                forall|k: int| 0 <= k < j ==> #[trigger] self.input_attachments@[k].id != id,
                forall|k: int|
                    0 <= k < self.color_attachments@.len() ==> #[trigger] self.color_attachments@[k].id
                        != id,
                !(self.depth_stencil_attachment is Some && self.depth_stencil_attachment->0.id
                    == id),
            decreases self.input_attachments@.len() - j,
        {
            if self.input_attachments[j].id == id {
                return true;
            }
            j = j + 1;
        }
        false
    }

    /// Whether any reference of the subpass declares the presentable layout.
    pub fn has_present(&self) -> (r: bool)
        ensures
            r == self.uses_present(),
    {
        let mut j: usize = 0;
        while j < self.color_attachments.len()
            invariant
                0 <= j <= self.color_attachments@.len(),
                forall|k: int|
                    0 <= k < j ==> #[trigger] self.color_attachments@[k].layout != Layout::Present,
            decreases self.color_attachments@.len() - j,
        {
            if self.color_attachments[j].layout == Layout::Present {
                return true;
            }
            j = j + 1;
        }
        match self.depth_stencil_attachment {
            Some(r) => {
                if r.layout == Layout::Present {
                    return true;
                }
            },
            None => {},
        }
        let mut j: usize = 0;
        while j < self.input_attachments.len()
            invariant
                0 <= j <= self.input_attachments@.len(),
                forall|k: int|
                    0 <= k < j ==> #[trigger] self.input_attachments@[k].layout != Layout::Present,
                forall|k: int|
                    0 <= k < self.color_attachments@.len()
                        ==> #[trigger] self.color_attachments@[k].layout != Layout::Present,
                !(self.depth_stencil_attachment is Some && self.depth_stencil_attachment->0.layout
                    == Layout::Present),
            decreases self.input_attachments@.len() - j,
        {
            if self.input_attachments[j].layout == Layout::Present {
                return true;
            }
            j = j + 1;
        }
        false
    }
}

/// A render pass: attachments, subpasses and the barriers after the last subpass.
#[derive(Debug, Clone)]
pub struct RenderPass {
    pub attachments: Vec<Attachment>,
    pub subpasses: Vec<Subpass>,
    pub post_barriers: Vec<BarrierDesc>,
}

/// One framebuffer attachment: its resource and its views.
#[derive(Debug, Clone, Copy, PartialEq, Eq, Structural)]
pub struct FramebufferAttachment {
    pub resource: u64,
    pub handle_rtv: Option<u64>,
    pub handle_dsv: Option<u64>,
}

/// A framebuffer: one entry per render-pass attachment.
#[derive(Debug, Clone)]
pub struct Framebuffer {
    pub attachments: Vec<FramebufferAttachment>,
}

/// What clearing an attachment at its first use takes.
#[derive(Debug, Clone, Copy, PartialEq, Eq, Structural)]
pub struct AttachmentClear {
    /// First subpass that uses the attachment.
    pub subpass_id: Option<usize>,
    /// Color, or depth, clear value.
    pub value: Option<ClearValueRaw>,
    /// Stencil clear value.
    pub stencil_value: Option<u32>,
}

/// Snapshot of the active render pass.
#[derive(Debug, Clone)]
pub struct RenderPassCache {
    pub render_pass: RenderPass,
    pub framebuffer: Framebuffer,
    pub target_rect: NativeRect,
    pub attachment_clears: Vec<AttachmentClear>,
}

/// Whether an attachment consumes a clear value.
pub open spec fn takes_clear(a: Attachment) -> bool {
    a.load == LoadOp::Clear || a.stencil_load == LoadOp::Clear
}

/// Number of clear values that attachments `atts[0..n]` consume.
pub open spec fn clears_before(atts: Seq<Attachment>, n: int) -> int
    decreases n,
{
    if n <= 0 {
        0
    } else {
        clears_before(atts, n - 1) + if takes_clear(atts[n - 1]) {
            1int
        } else {
            0int
        }
    }
}

pub proof fn lemma_clears_before_mono(atts: Seq<Attachment>, a: int, b: int)
    requires
        0 <= a <= b,
    ensures
        clears_before(atts, a) <= clears_before(atts, b),
    decreases b,
{
    if b > a {
        lemma_clears_before_mono(atts, a, b - 1);
    }
}

/// Index of the first subpass among `subpasses[0..n]` that uses attachment `id`.
pub open spec fn first_use(subpasses: Seq<Subpass>, n: int, id: int) -> Option<usize>
    decreases n,
{
    if n <= 0 {
        None
    } else {
        let prev = first_use(subpasses, n - 1, id);
        if prev is Some {
            prev
        } else if subpasses[n - 1].uses(id) {
            Some((n - 1) as usize)
        } else {
            None
        }
    }
}

/// The clear plan entry of attachment `i` given the clear values.
pub open spec fn planned_clear(rp: RenderPass, clear_values: Seq<ClearValueRaw>, i: int) -> AttachmentClear {
    let a = rp.attachments@[i];
    let cv = clear_values[clears_before(rp.attachments@, i)];
    AttachmentClear {
        subpass_id: first_use(rp.subpasses@, rp.subpasses@.len() as int, i),
        value: if a.load == LoadOp::Clear {
            Some(cv)
        } else {
            None
        },
        stencil_value: if a.stencil_load == LoadOp::Clear {
            Some(cv.w1)
        } else {
            None
        },
    }
}

/// The barriers that entering subpass `s` runs; past the last subpass,
/// the render pass's closing barriers.
pub open spec fn barrier_descs(rp: RenderPass, s: int) -> Seq<BarrierDesc> {
    if 0 <= s < rp.subpasses@.len() {
        rp.subpasses@[s].pre_barriers@
    } else {
        rp.post_barriers@
    }
}

/// The native transitions for `descs` against the framebuffer's resources.
pub open spec fn transitions(fb: Framebuffer, descs: Seq<BarrierDesc>) -> Seq<ResourceBarrier> {
    Seq::new(
        descs.len(),
        |j: int|
            ResourceBarrier::Transition {
                resource: fb.attachments@[descs[j].attachment_id as int].resource,
                subresource: ALL_SUBRESOURCES,
                before: descs[j].before,
                after: descs[j].after,
                flags: descs[j].flags,
            },
    )
}

/// What barrier insertion at subpass `s` records: one barrier batch, or
/// nothing when the subpass declares no barrier.
pub open spec fn barrier_ops(c: RenderPassCache, s: int) -> Seq<NativeOp> {
    let descs = barrier_descs(c.render_pass, s);
    if descs.len() == 0 {
        Seq::empty()
    } else {
        seq![NativeOp::ResourceBarriers { barriers: transitions(c.framebuffer, descs) }]
    }
}

/// The clears of attachment `i` on entering subpass `s`: a render-target
/// clear where it has a color view and a clear value, and a depth/stencil
/// clear where it has a depth/stencil view and a depth or stencil value;
/// nothing unless `s` is its first use.
pub open spec fn attachment_clear_ops(c: RenderPassCache, s: int, i: int) -> Seq<NativeOp> {
    let view = c.framebuffer.attachments@[i];
    let clear = c.attachment_clears@[i];
    let rects = seq![c.target_rect];
    if clear.subpass_id != Some(s as usize) {
        Seq::empty()
    } else {
        let color = if view.handle_rtv is Some && clear.value is Some {
            seq![
                NativeOp::ClearRenderTargetView {
                    view: view.handle_rtv->0,
                    color: clear.value->0,
                    rects,
                },
            ]
        } else {
            Seq::empty()
        };
        let depth = if clear.value is Some {
            Some(clear.value->0.w0)
        } else {
            None
        };
        let ds = if view.handle_dsv is Some && (depth is Some || clear.stencil_value is Some) {
            seq![
                NativeOp::ClearDepthStencilView {
                    view: view.handle_dsv->0,
                    depth,
                    stencil: clear.stencil_value,
                    rects,
                },
            ]
        } else {
            Seq::empty()
        };
        color + ds
    }
}

/// The clears of attachments `0..n` on entering subpass `s`.
pub open spec fn clear_ops(c: RenderPassCache, s: int, n: int) -> Seq<NativeOp>
    decreases n,
{
    if n <= 0 {
        Seq::empty()
    } else {
        clear_ops(c, s, n - 1) + attachment_clear_ops(c, s, n - 1)
    }
}

/// Number of attachments that both the framebuffer and the clear plan describe.
pub open spec fn clear_count(c: RenderPassCache) -> int {
    if c.framebuffer.attachments@.len() < c.attachment_clears@.len() {
        c.framebuffer.attachments@.len() as int
    } else {
        c.attachment_clears@.len() as int
    }
}

/// The color views of subpass `s`.
pub open spec fn color_views(c: RenderPassCache, s: int) -> Seq<u64> {
    let refs = c.render_pass.subpasses@[s].color_attachments@;
    Seq::new(refs.len(), |j: int| c.framebuffer.attachments@[refs[j].id as int].handle_rtv->0)
}

/// The depth/stencil view of subpass `s`, if it has one.
pub open spec fn depth_view(c: RenderPassCache, s: int) -> Option<u64> {
    match c.render_pass.subpasses@[s].depth_stencil_attachment {
        Some(r) => Some(c.framebuffer.attachments@[r.id as int].handle_dsv->0),
        None => None,
    }
}

/// What binding the targets of subpass `s` records: the render targets,
/// then the clears of the attachments first used there.
pub open spec fn target_ops(c: RenderPassCache, s: int) -> Seq<NativeOp> {
    seq![NativeOp::SetRenderTargets { color: color_views(c, s), depth_stencil: depth_view(c, s) }]
        + clear_ops(c, s, clear_count(c))
}

/// Everything entering subpass `s` records.
pub open spec fn subpass_ops(c: RenderPassCache, s: int) -> Seq<NativeOp> {
    barrier_ops(c, s) + target_ops(c, s)
}

/// The attachment references of a render pass and framebuffer point at
/// existing attachments, with the views that binding them needs.
pub open spec fn pass_wf(rp: RenderPass, fb: Framebuffer) -> bool {
    let n = rp.attachments@.len();
    let fbs = fb.attachments@;
    &&& fbs.len() == n
    &&& rp.subpasses@.len() > 0
    &&& forall|j: int| 0 <= j < rp.post_barriers@.len() ==> #[trigger] rp.post_barriers@[j].attachment_id < n
    &&& forall|s: int|
        0 <= s < rp.subpasses@.len() ==> {
            let sp = #[trigger] rp.subpasses@[s];
            &&& forall|j: int|
                0 <= j < sp.pre_barriers@.len() ==> #[trigger] sp.pre_barriers@[j].attachment_id < n
            &&& forall|j: int|
                0 <= j < sp.color_attachments@.len() ==> #[trigger] sp.color_attachments@[j].id < n
                    && fbs[sp.color_attachments@[j].id as int].handle_rtv is Some
            &&& sp.depth_stencil_attachment is Some ==> sp.depth_stencil_attachment->0.id < n
                && fbs[sp.depth_stencil_attachment->0.id as int].handle_dsv is Some
        }
}

/// The cache describes a well-formed pass with one clear entry per attachment.
pub open spec fn cache_wf(c: RenderPassCache) -> bool {
    &&& pass_wf(c.render_pass, c.framebuffer)
    &&& c.attachment_clears@.len() == c.framebuffer.attachments@.len()
}

/// A clear of each attachment fires on entering exactly one subpass, its
/// first use, and only there.
pub proof fn lemma_clear_fires_once(c: RenderPassCache, i: int)
    requires
        cache_wf(c),
        0 <= i < c.attachment_clears@.len(),
    ensures
        forall|s: int|
            0 <= s <= usize::MAX && #[trigger] attachment_clear_ops(c, s, i).len()
                > 0 ==> c.attachment_clears@[i].subpass_id == Some(s as usize),
        c.attachment_clears@[i].subpass_id is Some ==> {
            let s = c.attachment_clears@[i].subpass_id->0 as int;
            forall|t: int|
                0 <= t <= usize::MAX && t != s ==> #[trigger] attachment_clear_ops(c, t, i).len()
                    == 0
        },
{
    assert forall|t: int|
        0 <= t <= usize::MAX && c.attachment_clears@[i].subpass_id is Some && t
            != c.attachment_clears@[i].subpass_id->0 as int implies #[trigger] attachment_clear_ops(
        c,
        t,
        i,
    ).len() == 0 by {
        assert(c.attachment_clears@[i].subpass_id != Some(t as usize));
    }
}

/// What entering subpasses `0..k` records: `begin_render_pass_raw` enters
/// subpass 0 and each `next_subpass` the next one.
pub open spec fn entered_ops(c: RenderPassCache, k: int) -> Seq<NativeOp>
    decreases k,
{
    if k <= 0 {
        Seq::empty()
    } else {
        entered_ops(c, k - 1) + subpass_ops(c, k - 1)
    }
}

/// What a whole pass of `n` subpasses records: `begin_render_pass_raw`,
/// `n - 1` calls of `next_subpass`, then `end_render_pass`.
pub open spec fn whole_pass_ops(c: RenderPassCache) -> Seq<NativeOp> {
    entered_ops(c, c.render_pass.subpasses@.len() as int) + barrier_ops(c, usize::MAX as int)
}

/// Barrier insertion number `k` of a whole pass: on entering subpass `k`
/// for `k < n`, at the end of the pass for `k == n`.
pub open spec fn insertion(c: RenderPassCache, k: int) -> Seq<NativeOp> {
    if k < c.render_pass.subpasses@.len() {
        barrier_ops(c, k)
    } else {
        barrier_ops(c, usize::MAX as int)
    }
}

/// Steps `0..k` of a whole pass: each barrier insertion, followed, inside
/// the pass, by the target binding of the subpass entered.
pub open spec fn pass_steps(c: RenderPassCache, k: int) -> Seq<NativeOp>
    decreases k,
{
    if k <= 0 {
        Seq::empty()
    } else {
        pass_steps(c, k - 1) + insertion(c, k - 1) + if k - 1 < c.render_pass.subpasses@.len() {
            target_ops(c, k - 1)
        } else {
            Seq::empty()
        }
    }
}

/// The clears of attachment `i` recorded on entering subpasses `0..k`.
pub open spec fn clears_over(c: RenderPassCache, i: int, k: int) -> Seq<NativeOp>
    decreases k,
{
    if k <= 0 {
        Seq::empty()
    } else {
        clears_over(c, i, k - 1) + attachment_clear_ops(c, k - 1, i)
    }
}

proof fn lemma_steps_entered(c: RenderPassCache, k: int)
    requires
        0 <= k <= c.render_pass.subpasses@.len(),
    ensures
        pass_steps(c, k) == entered_ops(c, k),
    decreases k,
{
    if k > 0 {
        lemma_steps_entered(c, k - 1);
        assert(pass_steps(c, k) =~= entered_ops(c, k));
    }
}

proof fn lemma_clears_over(c: RenderPassCache, i: int, k: int)
    requires
        cache_wf(c),
        0 <= i < c.attachment_clears@.len(),
        0 <= k <= usize::MAX,
    ensures
        clears_over(c, i, k) == if c.attachment_clears@[i].subpass_id is Some
            && c.attachment_clears@[i].subpass_id->0 < k {
            attachment_clear_ops(c, c.attachment_clears@[i].subpass_id->0 as int, i)
        } else {
            Seq::empty()
        },
    decreases k,
{
    if k > 0 {
        lemma_clears_over(c, i, k - 1);
        lemma_clear_fires_once(c, i);
        let id = c.attachment_clears@[i].subpass_id;
        if id is Some && id->0 == k - 1 {
            assert(clears_over(c, i, k) =~= attachment_clear_ops(c, k - 1, i));
        } else {
            assert(attachment_clear_ops(c, k - 1, i).len() == 0);
            assert(clears_over(c, i, k) =~= clears_over(c, i, k - 1));
        }
    }
}

/// A whole render pass of `n` subpasses runs barrier insertion exactly
/// `n + 1` times: its recording is the `n + 1` steps of `pass_steps`, the
/// step `k < n` consulting the barriers declared before subpass `k` and the
/// last one the pass's closing barriers. Over the whole pass, an
/// attachment's clears are recorded exactly once, all on entering its
/// first-use subpass, and never for an attachment that no subpass uses;
/// the end of the pass records barriers only.
pub proof fn lemma_whole_pass(c: RenderPassCache)
    requires
        cache_wf(c),
        c.render_pass.subpasses@.len() <= usize::MAX,
    ensures
        whole_pass_ops(c) == pass_steps(c, c.render_pass.subpasses@.len() + 1int),
        forall|k: int|
            0 <= k < c.render_pass.subpasses@.len() ==> barrier_descs(c.render_pass, k)
                == #[trigger] c.render_pass.subpasses@[k].pre_barriers@,
        barrier_descs(c.render_pass, usize::MAX as int) == c.render_pass.post_barriers@,
        forall|i: int|
            0 <= i < c.attachment_clears@.len() ==> #[trigger] clears_over(
                c,
                i,
                c.render_pass.subpasses@.len() as int,
            ) == if c.attachment_clears@[i].subpass_id is Some
                && c.attachment_clears@[i].subpass_id->0 < c.render_pass.subpasses@.len() {
                attachment_clear_ops(c, c.attachment_clears@[i].subpass_id->0 as int, i)
            } else {
                Seq::empty()
            },
        forall|j: int|
            0 <= j < barrier_ops(c, usize::MAX as int).len() ==> (#[trigger] barrier_ops(
                c,
                usize::MAX as int,
            )[j]) is ResourceBarriers,
{
    let n = c.render_pass.subpasses@.len() as int;
    lemma_steps_entered(c, n);
    assert(whole_pass_ops(c) =~= pass_steps(c, n + 1));
    assert forall|i: int| 0 <= i < c.attachment_clears@.len() implies #[trigger] clears_over(
        c,
        i,
        n,
    ) == if c.attachment_clears@[i].subpass_id is Some && c.attachment_clears@[i].subpass_id->0 < n {
        attachment_clear_ops(c, c.attachment_clears@[i].subpass_id->0 as int, i)
    } else {
        Seq::empty()
    } by {
        lemma_clears_over(c, i, n);
    }
}

} // verus!

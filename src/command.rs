//! The command buffer: records native commands for the portable command
//! set, keeping per-bind-point binding state, the active render pass and
//! the active queries.

use vstd::prelude::*;
use std::ops::Range;
use crate::caches::{
    merge_scissors,
    merge_viewports,
    merged,
    scissor_items,
    scissors_new,
    scissors_to_vec,
    viewport_items,
    viewports_new,
    viewports_to_vec,
    ScissorCache,
    ViewportCache,
};
use crate::barrier::{barrier_batch, barrier_ok, translate_barriers, Aspects, Barrier, SubresourceRange};
use crate::copy::{
    copy_boxes_fit,
    lemma_split_copies_fit,
    region_ok,
    split_buffer_copy,
    split_copies,
    BufferImageCopy,
    Extent,
    FootprintCopy,
    ImageInfo,
    Offset,
};
use crate::native::{
    get_rect,
    ops_of,
    rect_of,
    record,
    BindPoint,
    ClearValueRaw,
    CopyLocation,
    IndirectKind,
    NativeBox,
    NativeCommand,
    NativeOp,
    NativeRect,
    NativeViewport,
    QueryKind,
    Rect,
    ResourceBarrier,
    VertexBufferView,
    ALL_SUBRESOURCES,
};
use crate::pass::{
    attachment_clear_ops,
    barrier_descs,
    barrier_ops,
    cache_wf,
    clear_count,
    clear_ops,
    clears_before,
    lemma_clears_before_mono,
    color_views,
    depth_view,
    first_use,
    pass_wf,
    planned_clear,
    subpass_ops,
    takes_clear,
    target_ops,
    transitions,
    AttachmentClear,
    Framebuffer,
    LoadOp,
    RenderPass,
    RenderPassCache,
};
use crate::pipeline::{
    bind_descriptor_sets,
    bind_sets_ok,
    constant_registers,
    constants_wf,
    flush_ops,
    flush_user_data,
    push_constants,
    push_fits,
    pushed_data,
    pushed_dirty,
    DescriptorSet,
    PipelineCache,
    PipelineLayout,
    RootConstant,
};
use crate::root::ROOT_SIGNATURE_SIZE;

verus! {

/// Number of vertex buffer slots.
pub const MAX_VERTEX_BUFFERS: usize = 16;

/// The parts of a buffer that recording reads.
#[derive(Debug, Clone, Copy, PartialEq, Eq, Structural)]
pub struct Buffer {
    pub resource: u64,
    /// GPU virtual address of the buffer's first byte.
    pub gpu_address: u64,
    pub size_in_bytes: u32,
    /// GPU and CPU descriptors of the view that clears the buffer, if the
    /// buffer can be cleared.
    pub clear_uav: Option<DescriptorPair>,
}

/// GPU and CPU descriptor handles of one view.
#[derive(Debug, Clone, Copy, PartialEq, Eq, Structural)]
pub struct DescriptorPair {
    pub gpu: u64,
    pub cpu: u64,
}

/// The parts of a graphics pipeline that recording reads.
#[derive(Debug, Clone)]
pub struct GraphicsPipeline {
    pub raw: u64,
    pub signature: u64,
    pub num_parameter_slots: usize,
    pub constants: Vec<RootConstant>,
    pub topology: u32,
    pub vertex_strides: Vec<u32>,
    pub baked_viewport: Option<NativeViewport>,
    pub baked_scissor: Option<Rect>,
    pub baked_blend_color: Option<ClearValueRaw>,
}

/// The parts of a compute pipeline that recording reads.
#[derive(Debug, Clone)]
pub struct ComputePipeline {
    pub raw: u64,
    pub signature: u64,
    pub num_parameter_slots: usize,
    pub constants: Vec<RootConstant>,
}

/// What a pipeline's root signature must satisfy to be cached.
pub open spec fn signature_wf(num_parameter_slots: int, constants: Seq<RootConstant>) -> bool {
    &&& constants_wf(constants)
    &&& constants.len() <= num_parameter_slots <= ROOT_SIGNATURE_SIZE
    &&& constant_registers(constants) + (num_parameter_slots - constants.len()) <= ROOT_SIGNATURE_SIZE
}

/// Type of a query pool.
#[derive(Debug, Clone, Copy, PartialEq, Eq, Structural)]
pub enum QueryPoolType {
    Occlusion,
    Timestamp,
    PipelineStatistics,
}

/// A query pool: its native heap and its type.
#[derive(Debug, Clone, Copy, PartialEq, Eq, Structural)]
pub struct QueryPool {
    pub heap: u64,
    pub ty: QueryPoolType,
}

/// One query of a pool.
#[derive(Debug, Clone, Copy, PartialEq, Eq, Structural)]
pub struct Query {
    pub pool: QueryPool,
    pub id: u32,
}

/// The active occlusion query and its precision.
#[derive(Debug, Clone, Copy, PartialEq, Eq, Structural)]
pub enum OcclusionQuery {
    Binary(u32),
    Precise(u32),
}

/// A command buffer recording into a native command list.
pub struct CommandBuffer {
    /// The recorded native command list.
    pub commands: Vec<NativeCommand>,
    /// The active render pass.
    pub pass_cache: Option<RenderPassCache>,
    pub cur_subpass: usize,
    /// Bound graphics root signature, pipeline and registers.
    pub gr_pipeline: PipelineCache,
    /// Bound compute root signature, pipeline and registers.
    pub comp_pipeline: PipelineCache,
    /// The bind point whose pipeline the native list holds.
    pub active_bindpoint: BindPoint,
    /// Active queries: at most one per query type.
    pub occlusion_query: Option<OcclusionQuery>,
    pub pipeline_stats_query: Option<u32>,
    /// Vertex buffer views to bind before a draw.
    pub vertex_buffer_views: [VertexBufferView; MAX_VERTEX_BUFFERS],
    /// Scratch list for buffer <-> image copies; empty between calls.
    pub copies: Vec<FootprintCopy>,
    /// Viewports and scissors set so far.
    pub viewport_cache: ViewportCache,
    pub scissor_cache: ScissorCache,
}

/// An unbound vertex buffer slot.
pub open spec fn null_view() -> VertexBufferView {
    VertexBufferView { location: 0, size_in_bytes: 0, stride_in_bytes: 0 }
}

/// Index of the first unbound slot at or after `i`, or the slot count.
pub open spec fn first_unbound(views: Seq<VertexBufferView>, i: int) -> int
    decreases views.len() - i,
{
    if i >= views.len() {
        views.len() as int
    } else if views[i].size_in_bytes == 0 {
        i
    } else {
        first_unbound(views, i + 1)
    }
}

/// The root signature and pipeline the native list holds for `bp` after a switch.
pub open spec fn switch_ops(cb: CommandBuffer, bp: BindPoint) -> Seq<NativeOp> {
    if cb.active_bindpoint == bp {
        Seq::empty()
    } else {
        let p = if bp == BindPoint::Graphics {
            cb.gr_pipeline.pipeline
        } else {
            cb.comp_pipeline.pipeline
        };
        seq![NativeOp::SetPipelineState { pipeline: (p->0).0 }]
    }
}

/// What readying the graphics bind point records before a draw.
pub open spec fn graphics_prelude(cb: CommandBuffer) -> Seq<NativeOp> {
    let views = cb.vertex_buffer_views@;
    switch_ops(cb, BindPoint::Graphics) + seq![
        NativeOp::SetVertexBuffers { views: views.take(first_unbound(views, 0)) },
    ] + flush_ops(cb.gr_pipeline, BindPoint::Graphics)
}

/// What readying the compute bind point records before a dispatch.
pub open spec fn compute_prelude(cb: CommandBuffer) -> Seq<NativeOp> {
    switch_ops(cb, BindPoint::Compute) + flush_ops(cb.comp_pipeline, BindPoint::Compute)
}

impl CommandBuffer {
    /// The recorded commands, as a sequence of native operations.
    pub open spec fn log(&self) -> Seq<NativeOp> {
        ops_of(self.commands@)
    }

    /// Both pipeline caches are well formed, the copy scratch list is empty,
    /// and an active render pass is well formed and inside its subpasses.
    pub open spec fn wf(&self) -> bool {
        &&& self.gr_pipeline.wf()
        &&& self.comp_pipeline.wf()
        &&& self.copies@.len() == 0
        &&& self.pass_cache is Some ==> cache_wf(self.pass_cache->0) && self.cur_subpass
            < self.pass_cache->0.render_pass.subpasses@.len()
    }

    /// The state after a reset, apart from the command list and the caches
    /// of viewports and scissors.
    pub open spec fn is_reset(&self) -> bool {
        &&& self.wf()
        &&& self.pass_cache is None
        &&& self.cur_subpass == usize::MAX
        &&& self.gr_pipeline.is_empty()
        &&& self.comp_pipeline.is_empty()
        &&& self.active_bindpoint == BindPoint::Graphics
        &&& self.occlusion_query is None
        &&& self.pipeline_stats_query is None
        &&& forall|i: int| 0 <= i < MAX_VERTEX_BUFFERS ==> #[trigger] self.vertex_buffer_views@[i] == null_view()
    }

    /// A command buffer with nothing recorded and nothing bound.
    pub fn new() -> (r: CommandBuffer)
        ensures
            r.is_reset(),
            r.log().len() == 0,
            viewport_items(r.viewport_cache).len() == 0,
            scissor_items(r.scissor_cache).len() == 0,
    {
        let null = VertexBufferView { location: 0, size_in_bytes: 0, stride_in_bytes: 0 };
        CommandBuffer {
            commands: Vec::new(),
            pass_cache: None,
            cur_subpass: usize::MAX,
            gr_pipeline: PipelineCache::new(),
            comp_pipeline: PipelineCache::new(),
            active_bindpoint: BindPoint::Graphics,
            occlusion_query: None,
            pipeline_stats_query: None,
            vertex_buffer_views: [null; MAX_VERTEX_BUFFERS],
            copies: Vec::new(),
            viewport_cache: viewports_new(),
            scissor_cache: scissors_new(),
        }
    }

    /// The recorded native command list.
    pub fn as_raw_list(&self) -> (r: &Vec<NativeCommand>)
        ensures
            r == &self.commands,
    {
        &self.commands
    }

    /// Resets the native list and forgets all recording state.
    pub fn reset(&mut self)
        ensures
            final(self).is_reset(),
            final(self).log() == old(self).log().push(NativeOp::Reset),
            viewport_items(final(self).viewport_cache) == viewport_items(old(self).viewport_cache),
            scissor_items(final(self).scissor_cache) == scissor_items(old(self).scissor_cache),
    {
        record(&mut self.commands, NativeCommand::Reset);
        let null = VertexBufferView { location: 0, size_in_bytes: 0, stride_in_bytes: 0 };
        self.pass_cache = None;
        self.cur_subpass = usize::MAX;
        self.gr_pipeline = PipelineCache::new();
        self.comp_pipeline = PipelineCache::new();
        self.active_bindpoint = BindPoint::Graphics;
        self.occlusion_query = None;
        self.pipeline_stats_query = None;
        self.vertex_buffer_views = [null; MAX_VERTEX_BUFFERS];
        self.copies = Vec::new();
    }

    /// Begins recording: a reset.
    pub fn begin(&mut self)
        ensures
            final(self).is_reset(),
            final(self).log() == old(self).log().push(NativeOp::Reset),
            viewport_items(final(self).viewport_cache) == viewport_items(old(self).viewport_cache),
            scissor_items(final(self).scissor_cache) == scissor_items(old(self).scissor_cache),
    {
        self.reset();
    }

    /// Ends recording: closes the native list.
    pub fn finish(&mut self)
        ensures
            final(self).log() == old(self).log().push(NativeOp::Close),
            same_state(*old(self), *final(self)),
    {
        record(&mut self.commands, NativeCommand::Close);
    }
}

} // verus!

verus! {

/// A list holding the one rectangle `r`.
fn one_rect(r: NativeRect) -> (v: Vec<NativeRect>)
    ensures
        v@ == seq![r],
{
    let mut v: Vec<NativeRect> = Vec::new();
    v.push(r);
    proof {
        assert(v@ =~= seq![r]);
    }
    v
}

/// Records a render-target clear of `rtv` to `color` over `rects`.
fn clear_render_target_view(
    commands: &mut Vec<NativeCommand>,
    rtv: u64,
    color: ClearValueRaw,
    rects: Vec<NativeRect>,
)
    ensures
        ops_of(final(commands)@) == ops_of(old(commands)@).push(
            NativeOp::ClearRenderTargetView { view: rtv, color, rects: rects@ },
        ),
{
    record(commands, NativeCommand::ClearRenderTargetView { view: rtv, color, rects });
}

/// Records a depth/stencil clear of `dsv` over `rects`, of the depth where
/// `depth` is given and of the stencil where `stencil` is.
fn clear_depth_stencil_view(
    commands: &mut Vec<NativeCommand>,
    dsv: u64,
    depth: Option<u32>,
    stencil: Option<u32>,
    rects: Vec<NativeRect>,
)
    ensures
        ops_of(final(commands)@) == ops_of(old(commands)@).push(
            NativeOp::ClearDepthStencilView { view: dsv, depth, stencil, rects: rects@ },
        ),
{
    record(commands, NativeCommand::ClearDepthStencilView { view: dsv, depth, stencil, rects });
}

/// Records the barriers that entering subpass `s` of the pass in `state` runs.
fn insert_subpass_barriers(commands: &mut Vec<NativeCommand>, state: &RenderPassCache, s: usize)
    requires
        cache_wf(*state),
    ensures
        ops_of(final(commands)@) == ops_of(old(commands)@) + barrier_ops(*state, s as int),
{
    let descs = if s < state.render_pass.subpasses.len() {
        &state.render_pass.subpasses[s].pre_barriers
    } else {
        &state.render_pass.post_barriers
    };
    proof {
        assert(descs@ == barrier_descs(state.render_pass, s as int));
    }
    let ghost fb = state.framebuffer;
    let mut barriers: Vec<ResourceBarrier> = Vec::new();
    let mut j: usize = 0;
    while j < descs.len()
        invariant
            cache_wf(*state),
            descs@ == barrier_descs(state.render_pass, s as int),
            0 <= j <= descs@.len(),
            barriers@ == transitions(state.framebuffer, descs@).take(j as int),
        decreases descs@.len() - j,
    {
        let d = descs[j];
        proof {
            if s < state.render_pass.subpasses@.len() {
                let sp = state.render_pass.subpasses@[s as int];
                assert(sp.pre_barriers@[j as int].attachment_id < state.render_pass.attachments@.len());
            } else {
                assert(state.render_pass.post_barriers@[j as int].attachment_id
                    < state.render_pass.attachments@.len());
            }
        }
        barriers.push(
            ResourceBarrier::Transition {
                resource: state.framebuffer.attachments[d.attachment_id].resource,
                subresource: ALL_SUBRESOURCES,
                before: d.before,
                after: d.after,
                flags: d.flags,
            },
        );
        proof {
            assert(barriers@ =~= transitions(state.framebuffer, descs@).take(j + 1));
        }
        j = j + 1;
    }
    if barriers.len() > 0 {
        proof {
            assert(barriers@ =~= transitions(state.framebuffer, descs@));
        }
        record(commands, NativeCommand::ResourceBarriers { barriers });
    } else {
        proof {
            assert(ops_of(commands@) =~= ops_of(commands@) + Seq::<NativeOp>::empty());
        }
    }
}

/// Binds the render targets of subpass `s` of the pass in `state`, then
/// clears the attachments first used there.
fn bind_targets(commands: &mut Vec<NativeCommand>, state: &RenderPassCache, s: usize)
    requires
        cache_wf(*state),
        s < state.render_pass.subpasses@.len(),
    ensures
        ops_of(final(commands)@) == ops_of(old(commands)@) + target_ops(*state, s as int),
{
    let subpass = &state.render_pass.subpasses[s];
    let ghost c = *state;
    let mut color: Vec<u64> = Vec::new();
    let mut j: usize = 0;
    while j < subpass.color_attachments.len()
        invariant
            cache_wf(*state),
            s < state.render_pass.subpasses@.len(),
            *subpass == state.render_pass.subpasses@[s as int],
            0 <= j <= subpass.color_attachments@.len(),
            color@ == color_views(*state, s as int).take(j as int),
        decreases subpass.color_attachments@.len() - j,
    {
        let id = subpass.color_attachments[j].id;
        proof {
            assert(id < state.framebuffer.attachments@.len());
            assert(state.framebuffer.attachments@[id as int].handle_rtv is Some);
        }
        let view = state.framebuffer.attachments[id].handle_rtv.unwrap();
        color.push(view);
        proof {
            assert(color@ =~= color_views(*state, s as int).take(j + 1));
        }
        j = j + 1;
    }
    let ds = match subpass.depth_stencil_attachment {
        Some(r) => Some(state.framebuffer.attachments[r.id].handle_dsv.unwrap()),
        None => None,
    };
    proof {
        assert(color@ =~= color_views(*state, s as int));
    }
    let ghost ops0 = ops_of(commands@);
    record(commands, NativeCommand::SetRenderTargets { color, depth_stencil: ds });

    let n = if state.framebuffer.attachments.len() < state.attachment_clears.len() {
        state.framebuffer.attachments.len()
    } else {
        state.attachment_clears.len()
    };
    let mut i: usize = 0;
    while i < n
        invariant
            cache_wf(*state),
            n == clear_count(*state),
            0 <= i <= n,
            ops_of(commands@) == ops0 + seq![
                NativeOp::SetRenderTargets {
                    color: color_views(*state, s as int),
                    depth_stencil: depth_view(*state, s as int),
                },
            ] + clear_ops(*state, s as int, i as int),
        decreases n - i,
    {
        let view = state.framebuffer.attachments[i];
        let clear = state.attachment_clears[i];
        let ghost before = ops_of(commands@);
        if clear.subpass_id == Some(s) {
            match (view.handle_rtv, clear.value) {
                (Some(handle), Some(cv)) => {
                    let rects = one_rect(state.target_rect);
                    clear_render_target_view(commands, handle, cv, rects);
                },
                _ => {},
            }
            match view.handle_dsv {
                Some(handle) => {
                    let depth = match clear.value {
                        Some(cv) => Some(cv.w0),
                        None => None,
                    };
                    let stencil = clear.stencil_value;
                    if depth.is_some() || stencil.is_some() {
                        let rects = one_rect(state.target_rect);
                        clear_depth_stencil_view(commands, handle, depth, stencil, rects);
                    }
                },
                None => {},
            }
        }
        proof {
            assert(ops_of(commands@) =~= before + attachment_clear_ops(*state, s as int, i as int));
        }
        i = i + 1;
    }
}

impl CommandBuffer {
    /// Begins `render_pass` on `framebuffer` over `target_rect`: snapshots
    /// the pass with its clear plan (one clear value taken, in order, by
    /// each attachment that clears its color/depth or its stencil), enters
    /// subpass 0, runs its barriers and binds its targets.
    pub fn begin_render_pass_raw(
        &mut self,
        render_pass: RenderPass,
        framebuffer: Framebuffer,
        target_rect: Rect,
        clear_values: &[ClearValueRaw],
    )
        requires
            old(self).wf(),
            pass_wf(render_pass, framebuffer),
            forall|s: int|
                0 <= s < render_pass.subpasses@.len() ==> !(#[trigger] render_pass.subpasses@[s]).uses_present(),
            clears_before(render_pass.attachments@, render_pass.attachments@.len() as int)
                <= clear_values@.len(),
        ensures
            final(self).wf(),
            final(self).pass_cache is Some,
            ({
                let c = final(self).pass_cache->0;
                &&& c.render_pass == render_pass
                &&& c.framebuffer == framebuffer
                &&& c.target_rect == rect_of(target_rect)
                &&& c.attachment_clears@ == Seq::new(
                    render_pass.attachments@.len(),
                    |i: int| planned_clear(render_pass, clear_values@, i),
                )
                &&& final(self).log() == old(self).log() + subpass_ops(c, 0)
            }),
            final(self).cur_subpass == 0,
            final(self).gr_pipeline == old(self).gr_pipeline,
            final(self).comp_pipeline == old(self).comp_pipeline,
            final(self).active_bindpoint == old(self).active_bindpoint,
            final(self).occlusion_query == old(self).occlusion_query,
            final(self).pipeline_stats_query == old(self).pipeline_stats_query,
    {
        let ghost atts = render_pass.attachments@;
        let mut clear_index: usize = 0;
        let mut attachment_clears: Vec<AttachmentClear> = Vec::new();
        let mut i: usize = 0;
        while i < render_pass.attachments.len()
            invariant
                atts == render_pass.attachments@,
                clears_before(atts, atts.len() as int) <= clear_values@.len(),
                0 <= i <= atts.len(),
                clear_index == clears_before(atts, i as int),
                attachment_clears@ == Seq::new(
                    i as nat,
                    |k: int| planned_clear(render_pass, clear_values@, k),
                ),
            decreases atts.len() - i,
        {
            proof {
                lemma_clears_before_mono(atts, i + 1, atts.len() as int);
            }
            let attachment = render_pass.attachments[i];
            let takes = attachment.load == LoadOp::Clear || attachment.stencil_load == LoadOp::Clear;
            let cv = if takes {
                let v = clear_values[clear_index];
                clear_index = clear_index + 1;
                Some(v)
            } else {
                None
            };
            let mut subpass_id: Option<usize> = None;
            let mut s: usize = 0;
            while s < render_pass.subpasses.len()
                invariant
                    0 <= s <= render_pass.subpasses@.len(),
                    subpass_id == first_use(render_pass.subpasses@, s as int, i as int),
                decreases render_pass.subpasses@.len() - s,
            {
                if subpass_id.is_none() && render_pass.subpasses[s].is_using(i) {
                    subpass_id = Some(s);
                }
                s = s + 1;
            }
            let value = if attachment.load == LoadOp::Clear {
                cv
            } else {
                None
            };
            let stencil_value = if attachment.stencil_load == LoadOp::Clear {
                match cv {
                    Some(v) => Some(v.w1),
                    None => None,
                }
            } else {
                None
            };
            attachment_clears.push(AttachmentClear { subpass_id, value, stencil_value });
            proof {
                assert(attachment_clears@ =~= Seq::new(
                    (i + 1) as nat,
                    |k: int| planned_clear(render_pass, clear_values@, k),
                ));
            }
            i = i + 1;
        }
        let cache = RenderPassCache {
            render_pass,
            framebuffer,
            target_rect: get_rect(&target_rect),
            attachment_clears,
        };
        let ghost log0 = self.log();
        insert_subpass_barriers(&mut self.commands, &cache, 0);
        bind_targets(&mut self.commands, &cache, 0);
        self.pass_cache = Some(cache);
        self.cur_subpass = 0;
        proof {
            assert(self.log() =~= log0 + subpass_ops(self.pass_cache->0, 0));
        }
    }

    /// Enters the next subpass: runs its barriers and binds its targets.
    pub fn next_subpass(&mut self)
        requires
            old(self).wf(),
            old(self).pass_cache is Some,
            old(self).cur_subpass + 1 < old(self).pass_cache->0.render_pass.subpasses@.len(),
        ensures
            final(self).wf(),
            final(self).pass_cache == old(self).pass_cache,
            final(self).cur_subpass == old(self).cur_subpass + 1,
            final(self).log() == old(self).log() + subpass_ops(
                old(self).pass_cache->0,
                old(self).cur_subpass + 1,
            ),
            final(self).gr_pipeline == old(self).gr_pipeline,
            final(self).comp_pipeline == old(self).comp_pipeline,
            final(self).active_bindpoint == old(self).active_bindpoint,
            final(self).occlusion_query == old(self).occlusion_query,
            final(self).pipeline_stats_query == old(self).pipeline_stats_query,
    {
        let ghost log0 = self.log();
        match &self.pass_cache {
            Some(state) => {
                let n = state.render_pass.subpasses.len();
                assert(self.cur_subpass + 1 < n);
                let next = self.cur_subpass + 1;
                insert_subpass_barriers(&mut self.commands, state, next);
                bind_targets(&mut self.commands, state, next);
                self.cur_subpass = next;
            },
            None => {},
        }
        proof {
            assert(self.log() =~= log0 + subpass_ops(self.pass_cache->0, self.cur_subpass as int));
        }
    }

    /// Ends the render pass: runs the pass's closing barriers and drops the pass.
    pub fn end_render_pass(&mut self)
        requires
            old(self).wf(),
            old(self).pass_cache is Some,
        ensures
            final(self).wf(),
            final(self).pass_cache is None,
            final(self).cur_subpass == usize::MAX,
            final(self).log() == old(self).log() + barrier_ops(old(self).pass_cache->0, usize::MAX as int),
            final(self).gr_pipeline == old(self).gr_pipeline,
            final(self).comp_pipeline == old(self).comp_pipeline,
            final(self).active_bindpoint == old(self).active_bindpoint,
            final(self).occlusion_query == old(self).occlusion_query,
            final(self).pipeline_stats_query == old(self).pipeline_stats_query,
    {
        self.cur_subpass = usize::MAX;
        match &self.pass_cache {
            Some(state) => {
                insert_subpass_barriers(&mut self.commands, state, usize::MAX);
            },
            None => {},
        }
        self.pass_cache = None;
    }
}

} // verus!

verus! {

/// What binding a graphics pipeline records: its root signature where it
/// differs from the cached one, its pipeline state and its topology.
pub open spec fn graphics_bind_ops(cb: CommandBuffer, p: GraphicsPipeline) -> Seq<NativeOp> {
    let same = cb.gr_pipeline.pipeline is Some && (cb.gr_pipeline.pipeline->0).1 == p.signature;
    (if same {
        Seq::empty()
    } else {
        seq![NativeOp::SetRootSignature { bind_point: BindPoint::Graphics, signature: p.signature }]
    }) + seq![
        NativeOp::SetPipelineState { pipeline: p.raw },
        NativeOp::SetPrimitiveTopology { topology: p.topology },
    ]
}

/// What binding a compute pipeline records: its root signature where it
/// differs from the cached one, then its pipeline state.
pub open spec fn compute_bind_ops(cb: CommandBuffer, p: ComputePipeline) -> Seq<NativeOp> {
    let same = cb.comp_pipeline.pipeline is Some && (cb.comp_pipeline.pipeline->0).1 == p.signature;
    (if same {
        Seq::empty()
    } else {
        seq![NativeOp::SetRootSignature { bind_point: BindPoint::Compute, signature: p.signature }]
    }) + seq![NativeOp::SetPipelineState { pipeline: p.raw }]
}

/// The pipeline cache after binding a pipeline with signature `signature`:
/// the same registers where the signature is unchanged; otherwise the new
/// signature's layout with every register dirty.
pub open spec fn rebound(
    old_cache: PipelineCache,
    new_cache: PipelineCache,
    raw: u64,
    signature: u64,
    num_parameter_slots: usize,
    constants: Seq<RootConstant>,
) -> bool {
    let same = old_cache.pipeline is Some && (old_cache.pipeline->0).1 == signature;
    &&& new_cache.pipeline == Some((raw, signature))
    &&& new_cache.user_data.data == old_cache.user_data.data
    &&& new_cache.srv_cbv_uav_start == old_cache.srv_cbv_uav_start
    &&& new_cache.sampler_start == old_cache.sampler_start
    &&& same ==> {
        &&& new_cache.user_data.dirty_mask == old_cache.user_data.dirty_mask
        &&& new_cache.num_parameter_slots == old_cache.num_parameter_slots
        &&& new_cache.root_constants@ == old_cache.root_constants@
    }
    &&& !same ==> {
        &&& forall|i: int| 0 <= i < ROOT_SIGNATURE_SIZE ==> #[trigger] new_cache.user_data.is_dirty(i)
        &&& new_cache.num_parameter_slots == num_parameter_slots
        &&& new_cache.root_constants@ == constants
    }
}

/// Copies the root-constant ranges of a pipeline.
fn copy_constants(constants: &Vec<RootConstant>) -> (r: Vec<RootConstant>)
    ensures
        r@ == constants@,
{
    let mut r: Vec<RootConstant> = Vec::new();
    let mut i: usize = 0;
    while i < constants.len()
        invariant
            0 <= i <= constants@.len(),
            r@ == constants@.take(i as int),
        decreases constants@.len() - i,
    {
        r.push(constants[i]);
        proof {
            assert(r@ =~= constants@.take(i + 1));
        }
        i = i + 1;
    }
    proof {
        assert(r@ =~= constants@);
    }
    r
}

/// Caches a pipeline bind in `cache`, recording the root-signature change
/// where the signature differs from the cached one.
fn rebind(
    commands: &mut Vec<NativeCommand>,
    cache: &mut PipelineCache,
    bind_point: BindPoint,
    raw: u64,
    signature: u64,
    num_parameter_slots: usize,
    constants: &Vec<RootConstant>,
)
    requires
        old(cache).wf(),
        signature_wf(num_parameter_slots as int, constants@),
    ensures
        final(cache).wf(),
        rebound(*old(cache), *final(cache), raw, signature, num_parameter_slots, constants@),
        ops_of(final(commands)@) == ops_of(old(commands)@) + if old(cache).pipeline is Some && (
        old(cache).pipeline->0).1 == signature {
            Seq::<NativeOp>::empty()
        } else {
            seq![NativeOp::SetRootSignature { bind_point, signature }]
        },
{
    let same = match cache.pipeline {
        Some((_, s)) => s == signature,
        None => false,
    };
    if !same {
        record(commands, NativeCommand::SetRootSignature { bind_point, signature });
        cache.num_parameter_slots = num_parameter_slots;
        cache.root_constants = copy_constants(constants);
        cache.user_data.mark_all_dirty();
    } else {
        proof {
            assert(ops_of(commands@) =~= ops_of(commands@) + Seq::<NativeOp>::empty());
        }
    }
    cache.pipeline = Some((raw, signature));
}

impl CommandBuffer {
    /// Readies the graphics bind point for a draw: restores the graphics
    /// pipeline if the compute one holds the native slot, binds the vertex
    /// buffers up to the first unbound slot and flushes dirty registers.
    fn set_graphics_bind_point(&mut self)
        requires
            old(self).wf(),
            old(self).active_bindpoint == BindPoint::Graphics || old(self).gr_pipeline.pipeline is Some,
        ensures
            final(self).wf(),
            final(self).log() == old(self).log() + graphics_prelude(*old(self)),
            readied(*old(self), *final(self), BindPoint::Graphics),
            after_flush(old(self).gr_pipeline, final(self).gr_pipeline),
    {
        let ghost log0 = self.log();
        if self.active_bindpoint != BindPoint::Graphics {
            let (pipeline, _) = self.gr_pipeline.pipeline.unwrap();
            record(&mut self.commands, NativeCommand::SetPipelineState { pipeline });
            self.active_bindpoint = BindPoint::Graphics;
        }
        let ghost log1 = self.log();
        let mut num_vbs: usize = 0;
        while num_vbs < MAX_VERTEX_BUFFERS && self.vertex_buffer_views[num_vbs].size_in_bytes != 0
            invariant
                0 <= num_vbs <= MAX_VERTEX_BUFFERS,
                first_unbound(self.vertex_buffer_views@, 0) == first_unbound(
                    self.vertex_buffer_views@,
                    num_vbs as int,
                ),
            decreases MAX_VERTEX_BUFFERS - num_vbs,
        {
            num_vbs = num_vbs + 1;
        }
        let mut views: Vec<VertexBufferView> = Vec::new();
        let mut i: usize = 0;
        while i < num_vbs
            invariant
                0 <= i <= num_vbs <= MAX_VERTEX_BUFFERS,
                views@ == self.vertex_buffer_views@.take(i as int),
            decreases num_vbs - i,
        {
            views.push(self.vertex_buffer_views[i]);
            proof {
                assert(views@ =~= self.vertex_buffer_views@.take(i + 1));
            }
            i = i + 1;
        }
        record(&mut self.commands, NativeCommand::SetVertexBuffers { views });
        flush_user_data(&mut self.gr_pipeline, BindPoint::Graphics, &mut self.commands);
        proof {
            assert(self.log() =~= log0 + graphics_prelude(*old(self)));
        }
    }

    /// Readies the compute bind point for a dispatch: restores the compute
    /// pipeline if the graphics one holds the native slot and flushes dirty
    /// registers.
    fn set_compute_bind_point(&mut self)
        requires
            old(self).wf(),
            old(self).active_bindpoint == BindPoint::Compute || old(self).comp_pipeline.pipeline is Some,
        ensures
            final(self).wf(),
            final(self).log() == old(self).log() + compute_prelude(*old(self)),
            readied(*old(self), *final(self), BindPoint::Compute),
            after_flush(old(self).comp_pipeline, final(self).comp_pipeline),
    {
        let ghost log0 = self.log();
        if self.active_bindpoint != BindPoint::Compute {
            let (pipeline, _) = self.comp_pipeline.pipeline.unwrap();
            record(&mut self.commands, NativeCommand::SetPipelineState { pipeline });
            self.active_bindpoint = BindPoint::Compute;
        }
        flush_user_data(&mut self.comp_pipeline, BindPoint::Compute, &mut self.commands);
        proof {
            assert(self.log() =~= log0 + compute_prelude(*old(self)));
        }
    }

    /// Binds a graphics pipeline: changes the root signature only where it
    /// differs from the cached one (then every register becomes dirty), sets
    /// the pipeline state and topology, takes the pipeline's vertex strides,
    /// and applies its baked viewport, scissor and blend color.
    pub fn bind_graphics_pipeline(&mut self, pipeline: &GraphicsPipeline)
        requires
            old(self).wf(),
            signature_wf(pipeline.num_parameter_slots as int, pipeline.constants@),
            viewport_items(old(self).viewport_cache).len() < usize::MAX,
            scissor_items(old(self).scissor_cache).len() < usize::MAX,
        ensures
            final(self).wf(),
            rebound(
                old(self).gr_pipeline,
                final(self).gr_pipeline,
                pipeline.raw,
                pipeline.signature,
                pipeline.num_parameter_slots,
                pipeline.constants@,
            ),
            final(self).active_bindpoint == BindPoint::Graphics,
            forall|i: int|
                0 <= i < MAX_VERTEX_BUFFERS ==> #[trigger] final(self).vertex_buffer_views@[i] == if i
                    < pipeline.vertex_strides@.len() {
                    VertexBufferView {
                        stride_in_bytes: pipeline.vertex_strides@[i],
                        ..old(self).vertex_buffer_views@[i]
                    }
                } else {
                    old(self).vertex_buffer_views@[i]
                },
            viewport_items(final(self).viewport_cache) == if pipeline.baked_viewport is Some {
                merged(viewport_items(old(self).viewport_cache), 0, seq![pipeline.baked_viewport->0])
            } else {
                viewport_items(old(self).viewport_cache)
            },
            scissor_items(final(self).scissor_cache) == if pipeline.baked_scissor is Some {
                merged(
                    scissor_items(old(self).scissor_cache),
                    0,
                    seq![rect_of(pipeline.baked_scissor->0)],
                )
            } else {
                scissor_items(old(self).scissor_cache)
            },
            final(self).log() == old(self).log() + graphics_bind_ops(*old(self), *pipeline) + (
            if pipeline.baked_viewport is Some {
                seq![NativeOp::SetViewports { viewports: viewport_items(final(self).viewport_cache) }]
            } else {
                Seq::empty()
            }) + (if pipeline.baked_scissor is Some {
                seq![NativeOp::SetScissorRects { rects: scissor_items(final(self).scissor_cache) }]
            } else {
                Seq::empty()
            }) + (if pipeline.baked_blend_color is Some {
                seq![NativeOp::SetBlendFactor { color: pipeline.baked_blend_color->0 }]
            } else {
                Seq::empty()
            }),
            final(self).pass_cache == old(self).pass_cache,
            final(self).cur_subpass == old(self).cur_subpass,
            final(self).comp_pipeline == old(self).comp_pipeline,
            final(self).occlusion_query == old(self).occlusion_query,
            final(self).pipeline_stats_query == old(self).pipeline_stats_query,
    {
        let ghost log0 = self.log();
        rebind(
            &mut self.commands,
            &mut self.gr_pipeline,
            BindPoint::Graphics,
            pipeline.raw,
            pipeline.signature,
            pipeline.num_parameter_slots,
            &pipeline.constants,
        );
        record(&mut self.commands, NativeCommand::SetPipelineState { pipeline: pipeline.raw });
        record(
            &mut self.commands,
            NativeCommand::SetPrimitiveTopology { topology: pipeline.topology },
        );
        proof {
            assert(self.log() =~= log0 + graphics_bind_ops(*old(self), *pipeline));
        }
        self.active_bindpoint = BindPoint::Graphics;

        let ghost views0 = self.vertex_buffer_views@;
        let mut views = self.vertex_buffer_views;
        let mut i: usize = 0;
        while i < MAX_VERTEX_BUFFERS && i < pipeline.vertex_strides.len()
            invariant
                0 <= i <= MAX_VERTEX_BUFFERS,
                i <= pipeline.vertex_strides@.len(),
                views0 == old(self).vertex_buffer_views@,
                forall|k: int|
                    0 <= k < MAX_VERTEX_BUFFERS ==> #[trigger] views@[k] == if k
                        < i {
                        VertexBufferView {
                            stride_in_bytes: pipeline.vertex_strides@[k],
                            ..views0[k]
                        }
                    } else {
                        views0[k]
                    },
            decreases MAX_VERTEX_BUFFERS - i,
        {
            let mut view = views[i];
            view.stride_in_bytes = pipeline.vertex_strides[i];
            views[i] = view;
            i = i + 1;
        }
        self.vertex_buffer_views = views;

        match pipeline.baked_viewport {
            Some(vp) => {
                let mut one: Vec<NativeViewport> = Vec::new();
                one.push(vp);
                assert(one@ =~= seq![vp]);
                self.set_viewports(0, one.as_slice());
            },
            None => {},
        }
        match pipeline.baked_scissor {
            Some(rect) => {
                let mut one: Vec<Rect> = Vec::new();
                one.push(rect);
                assert(one@ =~= seq![rect]);
                assert(one@.map_values(|r: Rect| rect_of(r)) =~= seq![rect_of(rect)]);
                self.set_scissors(0, one.as_slice());
            },
            None => {},
        }
        match pipeline.baked_blend_color {
            Some(color) => {
                self.set_blend_constants(color);
            },
            None => {},
        }
    }

    /// Binds a compute pipeline: changes the root signature only where it
    /// differs from the cached one (then every register becomes dirty) and
    /// sets the pipeline state.
    pub fn bind_compute_pipeline(&mut self, pipeline: &ComputePipeline)
        requires
            old(self).wf(),
            signature_wf(pipeline.num_parameter_slots as int, pipeline.constants@),
        ensures
            final(self).wf(),
            rebound(
                old(self).comp_pipeline,
                final(self).comp_pipeline,
                pipeline.raw,
                pipeline.signature,
                pipeline.num_parameter_slots,
                pipeline.constants@,
            ),
            final(self).active_bindpoint == BindPoint::Compute,
            final(self).log() == old(self).log() + compute_bind_ops(*old(self), *pipeline),
            final(self).pass_cache == old(self).pass_cache,
            final(self).cur_subpass == old(self).cur_subpass,
            final(self).gr_pipeline == old(self).gr_pipeline,
            final(self).occlusion_query == old(self).occlusion_query,
            final(self).pipeline_stats_query == old(self).pipeline_stats_query,
            final(self).vertex_buffer_views == old(self).vertex_buffer_views,
    {
        let ghost log0 = self.log();
        rebind(
            &mut self.commands,
            &mut self.comp_pipeline,
            BindPoint::Compute,
            pipeline.raw,
            pipeline.signature,
            pipeline.num_parameter_slots,
            &pipeline.constants,
        );
        record(&mut self.commands, NativeCommand::SetPipelineState { pipeline: pipeline.raw });
        proof {
            assert(self.log() =~= log0 + compute_bind_ops(*old(self), *pipeline));
        }
        self.active_bindpoint = BindPoint::Compute;
    }
}

impl CommandBuffer {
    /// Writes `viewports` into the viewport cache from index `first` on
    /// (appending past its end), then sets every cached viewport.
    pub fn set_viewports(&mut self, first_viewport: u32, viewports: &[NativeViewport])
        requires
            viewport_items(old(self).viewport_cache).len() + viewports@.len() <= usize::MAX,
            first_viewport + viewports@.len() <= usize::MAX,
        ensures
            viewport_items(final(self).viewport_cache) == merged(
                viewport_items(old(self).viewport_cache),
                first_viewport as int,
                viewports@,
            ),
            final(self).log() == old(self).log().push(
                NativeOp::SetViewports { viewports: viewport_items(final(self).viewport_cache) },
            ),
            final(self).pass_cache == old(self).pass_cache,
            final(self).cur_subpass == old(self).cur_subpass,
            final(self).gr_pipeline == old(self).gr_pipeline,
            final(self).comp_pipeline == old(self).comp_pipeline,
            final(self).active_bindpoint == old(self).active_bindpoint,
            final(self).occlusion_query == old(self).occlusion_query,
            final(self).pipeline_stats_query == old(self).pipeline_stats_query,
            final(self).vertex_buffer_views == old(self).vertex_buffer_views,
            final(self).copies@ == old(self).copies@,
            scissor_items(final(self).scissor_cache) == scissor_items(old(self).scissor_cache),
    {
        merge_viewports(&mut self.viewport_cache, first_viewport, viewports);
        let all = viewports_to_vec(&self.viewport_cache);
        record(&mut self.commands, NativeCommand::SetViewports { viewports: all });
    }

    /// Writes `scissors` into the scissor cache from index `first` on
    /// (appending past its end), then sets every cached scissor.
    pub fn set_scissors(&mut self, first_scissor: u32, scissors: &[Rect])
        requires
            scissor_items(old(self).scissor_cache).len() + scissors@.len() <= usize::MAX,
            first_scissor + scissors@.len() <= usize::MAX,
        ensures
            scissor_items(final(self).scissor_cache) == merged(
                scissor_items(old(self).scissor_cache),
                first_scissor as int,
                scissors@.map_values(|r: Rect| rect_of(r)),
            ),
            final(self).log() == old(self).log().push(
                NativeOp::SetScissorRects { rects: scissor_items(final(self).scissor_cache) },
            ),
            final(self).pass_cache == old(self).pass_cache,
            final(self).cur_subpass == old(self).cur_subpass,
            final(self).gr_pipeline == old(self).gr_pipeline,
            final(self).comp_pipeline == old(self).comp_pipeline,
            final(self).active_bindpoint == old(self).active_bindpoint,
            final(self).occlusion_query == old(self).occlusion_query,
            final(self).pipeline_stats_query == old(self).pipeline_stats_query,
            final(self).vertex_buffer_views == old(self).vertex_buffer_views,
            final(self).copies@ == old(self).copies@,
            viewport_items(final(self).viewport_cache) == viewport_items(old(self).viewport_cache),
    {
        let mut rects: Vec<NativeRect> = Vec::new();
        let mut i: usize = 0;
        while i < scissors.len()
            invariant
                0 <= i <= scissors@.len(),
                rects@ == scissors@.map_values(|r: Rect| rect_of(r)).take(i as int),
            decreases scissors@.len() - i,
        {
            rects.push(get_rect(&scissors[i]));
            proof {
                assert(rects@ =~= scissors@.map_values(|r: Rect| rect_of(r)).take(i + 1));
            }
            i = i + 1;
        }
        proof {
            assert(rects@ =~= scissors@.map_values(|r: Rect| rect_of(r)));
        }
        merge_scissors(&mut self.scissor_cache, first_scissor, rects.as_slice());
        let all = scissors_to_vec(&self.scissor_cache);
        record(&mut self.commands, NativeCommand::SetScissorRects { rects: all });
    }

    /// Sets the blend factor.
    pub fn set_blend_constants(&mut self, color: ClearValueRaw)
        ensures
            final(self).log() == old(self).log().push(NativeOp::SetBlendFactor { color }),
            final(self).pass_cache == old(self).pass_cache,
            final(self).cur_subpass == old(self).cur_subpass,
            final(self).gr_pipeline == old(self).gr_pipeline,
            final(self).comp_pipeline == old(self).comp_pipeline,
            final(self).active_bindpoint == old(self).active_bindpoint,
            final(self).occlusion_query == old(self).occlusion_query,
            final(self).pipeline_stats_query == old(self).pipeline_stats_query,
            final(self).vertex_buffer_views == old(self).vertex_buffer_views,
            final(self).copies@ == old(self).copies@,
            viewport_items(final(self).viewport_cache) == viewport_items(old(self).viewport_cache),
            scissor_items(final(self).scissor_cache) == scissor_items(old(self).scissor_cache),
    {
        record(&mut self.commands, NativeCommand::SetBlendFactor { color });
    }

    /// Sets the stencil reference. The native list has one value for both
    /// faces; the front value is taken.
    pub fn set_stencil_reference(&mut self, front: u32, back: u32)
        ensures
            final(self).log() == old(self).log().push(NativeOp::SetStencilRef { value: front }),
            same_state(*old(self), *final(self)),
    {
        record(&mut self.commands, NativeCommand::SetStencilRef { value: front });
    }
}

} // verus!

verus! {

/// `b` agrees with `a` on everything but the command list, the pipeline
/// caches and the active bind point.
pub open spec fn same_pass_and_queries(a: CommandBuffer, b: CommandBuffer) -> bool {
    &&& b.pass_cache == a.pass_cache
    &&& b.cur_subpass == a.cur_subpass
    &&& b.occlusion_query == a.occlusion_query
    &&& b.pipeline_stats_query == a.pipeline_stats_query
    &&& b.vertex_buffer_views == a.vertex_buffer_views
    &&& b.copies@ == a.copies@
    &&& viewport_items(b.viewport_cache) == viewport_items(a.viewport_cache)
    &&& scissor_items(b.scissor_cache) == scissor_items(a.scissor_cache)
}

/// `b` agrees with `a` on everything but the command list.
pub open spec fn same_state(a: CommandBuffer, b: CommandBuffer) -> bool {
    &&& same_pass_and_queries(a, b)
    &&& b.gr_pipeline == a.gr_pipeline
    &&& b.comp_pipeline == a.comp_pipeline
    &&& b.active_bindpoint == a.active_bindpoint
}

/// A pipeline cache after a flush: the same bindings, and no register dirty.
pub open spec fn after_flush(cache_before: PipelineCache, cache_after: PipelineCache) -> bool {
    &&& cache_after.pipeline == cache_before.pipeline
    &&& cache_after.num_parameter_slots == cache_before.num_parameter_slots
    &&& cache_after.root_constants@ == cache_before.root_constants@
    &&& cache_after.srv_cbv_uav_start == cache_before.srv_cbv_uav_start
    &&& cache_after.sampler_start == cache_before.sampler_start
    &&& cache_after.user_data.data == cache_before.user_data.data
    &&& cache_after.user_data.dirty_mask == 0
}

/// A compute pipeline is bound: dispatching without one is a caller error.
pub open spec fn compute_ready(cb: CommandBuffer) -> bool {
    cb.comp_pipeline.pipeline is Some
}

/// A graphics pipeline is bound: drawing without one is a caller error.
pub open spec fn graphics_ready(cb: CommandBuffer) -> bool {
    cb.gr_pipeline.pipeline is Some
}

/// The bind-point state after readying `bp` for work.
pub open spec fn readied(a: CommandBuffer, b: CommandBuffer, bp: BindPoint) -> bool {
    &&& same_pass_and_queries(a, b)
    &&& b.active_bindpoint == bp
    &&& bp == BindPoint::Graphics ==> b.comp_pipeline == a.comp_pipeline
    &&& bp == BindPoint::Compute ==> b.gr_pipeline == a.gr_pipeline
}

impl CommandBuffer {
    /// Binds descriptor sets for graphics work (see `bind_descriptor_sets`).
    pub fn bind_graphics_descriptor_sets(
        &mut self,
        layout: &PipelineLayout,
        first_set: usize,
        sets: &[DescriptorSet],
    )
        requires
            old(self).wf(),
            bind_sets_ok(*layout, first_set as int, sets@),
        ensures
            final(self).wf(),
            same_pass_and_queries(*old(self), *final(self)),
            final(self).comp_pipeline == old(self).comp_pipeline,
            final(self).active_bindpoint == old(self).active_bindpoint,
            bound_sets(
                old(self).log(),
                final(self).log(),
                old(self).gr_pipeline,
                final(self).gr_pipeline,
                *layout,
                first_set as int,
                sets@,
            ),
    {
        bind_descriptor_sets(&mut self.commands, &mut self.gr_pipeline, layout, first_set, sets);
    }

    /// Binds descriptor sets for compute work (see `bind_descriptor_sets`).
    pub fn bind_compute_descriptor_sets(
        &mut self,
        layout: &PipelineLayout,
        first_set: usize,
        sets: &[DescriptorSet],
    )
        requires
            old(self).wf(),
            bind_sets_ok(*layout, first_set as int, sets@),
        ensures
            final(self).wf(),
            same_pass_and_queries(*old(self), *final(self)),
            final(self).gr_pipeline == old(self).gr_pipeline,
            final(self).active_bindpoint == old(self).active_bindpoint,
            bound_sets(
                old(self).log(),
                final(self).log(),
                old(self).comp_pipeline,
                final(self).comp_pipeline,
                *layout,
                first_set as int,
                sets@,
            ),
    {
        bind_descriptor_sets(&mut self.commands, &mut self.comp_pipeline, layout, first_set, sets);
    }

    /// Pushes graphics root constants (see `push_constants`).
    pub fn push_graphics_constants(&mut self, layout: &PipelineLayout, offset: u32, constants: &[u32])
        requires
            old(self).wf(),
            push_fits(layout.root_constants@, offset as int, constants@),
        ensures
            final(self).wf(),
            same_pass_and_queries(*old(self), *final(self)),
            final(self).log() == old(self).log(),
            final(self).comp_pipeline == old(self).comp_pipeline,
            final(self).active_bindpoint == old(self).active_bindpoint,
            pushed(old(self).gr_pipeline, final(self).gr_pipeline, *layout, offset as int, constants@),
    {
        push_constants(&mut self.gr_pipeline.user_data, layout, offset, constants);
    }

    /// Pushes compute root constants (see `push_constants`).
    pub fn push_compute_constants(&mut self, layout: &PipelineLayout, offset: u32, constants: &[u32])
        requires
            old(self).wf(),
            push_fits(layout.root_constants@, offset as int, constants@),
        ensures
            final(self).wf(),
            same_pass_and_queries(*old(self), *final(self)),
            final(self).log() == old(self).log(),
            final(self).gr_pipeline == old(self).gr_pipeline,
            final(self).active_bindpoint == old(self).active_bindpoint,
            pushed(old(self).comp_pipeline, final(self).comp_pipeline, *layout, offset as int, constants@),
    {
        push_constants(&mut self.comp_pipeline.user_data, layout, offset, constants);
    }

    /// Dispatches `count` work groups after readying the compute bind point.
    pub fn dispatch(&mut self, count: [u32; 3])
        requires
            old(self).wf(),
            compute_ready(*old(self)),
        ensures
            final(self).wf(),
            readied(*old(self), *final(self), BindPoint::Compute),
            after_flush(old(self).comp_pipeline, final(self).comp_pipeline),
            final(self).log() == old(self).log() + compute_prelude(*old(self)) + seq![
                NativeOp::Dispatch { x: count@[0], y: count@[1], z: count@[2] },
            ],
    {
        self.set_compute_bind_point();
        record(&mut self.commands, NativeCommand::Dispatch { x: count[0], y: count[1], z: count[2] });
    }

    /// Dispatches with the arguments stored in `buffer` at `offset`, after
    /// readying the compute bind point.
    pub fn dispatch_indirect(&mut self, buffer: &Buffer, offset: u64)
        requires
            old(self).wf(),
            compute_ready(*old(self)),
        ensures
            final(self).wf(),
            readied(*old(self), *final(self), BindPoint::Compute),
            after_flush(old(self).comp_pipeline, final(self).comp_pipeline),
            final(self).log() == old(self).log() + compute_prelude(*old(self)) + seq![
                NativeOp::ExecuteIndirect {
                    kind: IndirectKind::Dispatch,
                    count: 1,
                    buffer: buffer.resource,
                    offset,
                },
            ],
    {
        self.set_compute_bind_point();
        record(
            &mut self.commands,
            NativeCommand::ExecuteIndirect {
                kind: IndirectKind::Dispatch,
                count: 1,
                buffer: buffer.resource,
                offset,
            },
        );
    }

    /// Draws the vertices and instances in the given ranges after readying
    /// the graphics bind point.
    pub fn draw(&mut self, vertices: Range<u32>, instances: Range<u32>)
        requires
            old(self).wf(),
            graphics_ready(*old(self)),
            vertices.start <= vertices.end,
            instances.start <= instances.end,
        ensures
            final(self).wf(),
            readied(*old(self), *final(self), BindPoint::Graphics),
            after_flush(old(self).gr_pipeline, final(self).gr_pipeline),
            final(self).log() == old(self).log() + graphics_prelude(*old(self)) + seq![
                NativeOp::DrawInstanced {
                    vertex_count: (vertices.end - vertices.start) as u32,
                    instance_count: (instances.end - instances.start) as u32,
                    first_vertex: vertices.start,
                    first_instance: instances.start,
                },
            ],
    {
        self.set_graphics_bind_point();
        record(
            &mut self.commands,
            NativeCommand::DrawInstanced {
                vertex_count: vertices.end - vertices.start,
                instance_count: instances.end - instances.start,
                first_vertex: vertices.start,
                first_instance: instances.start,
            },
        );
    }

    /// Draws the indices and instances in the given ranges, offsetting
    /// vertex indices by `base_vertex`, after readying the graphics bind point.
    pub fn draw_indexed(&mut self, indices: Range<u32>, base_vertex: i32, instances: Range<u32>)
        requires
            old(self).wf(),
            graphics_ready(*old(self)),
            indices.start <= indices.end,
            instances.start <= instances.end,
        ensures
            final(self).wf(),
            readied(*old(self), *final(self), BindPoint::Graphics),
            after_flush(old(self).gr_pipeline, final(self).gr_pipeline),
            final(self).log() == old(self).log() + graphics_prelude(*old(self)) + seq![
                NativeOp::DrawIndexedInstanced {
                    index_count: (indices.end - indices.start) as u32,
                    instance_count: (instances.end - instances.start) as u32,
                    first_index: indices.start,
                    base_vertex,
                    first_instance: instances.start,
                },
            ],
    {
        self.set_graphics_bind_point();
        record(
            &mut self.commands,
            NativeCommand::DrawIndexedInstanced {
                index_count: indices.end - indices.start,
                instance_count: instances.end - instances.start,
                first_index: indices.start,
                base_vertex,
                first_instance: instances.start,
            },
        );
    }

    /// Draws `draw_count` times with arguments read from `buffer` at
    /// `offset`, 16 bytes apart, after readying the graphics bind point.
    pub fn draw_indirect(&mut self, buffer: &Buffer, offset: u64, draw_count: u32, stride: u32)
        requires
            old(self).wf(),
            graphics_ready(*old(self)),
            stride == 16,
        ensures
            final(self).wf(),
            readied(*old(self), *final(self), BindPoint::Graphics),
            after_flush(old(self).gr_pipeline, final(self).gr_pipeline),
            final(self).log() == old(self).log() + graphics_prelude(*old(self)) + seq![
                NativeOp::ExecuteIndirect {
                    kind: IndirectKind::Draw,
                    count: draw_count,
                    buffer: buffer.resource,
                    offset,
                },
            ],
    {
        self.set_graphics_bind_point();
        record(
            &mut self.commands,
            NativeCommand::ExecuteIndirect {
                kind: IndirectKind::Draw,
                count: draw_count,
                buffer: buffer.resource,
                offset,
            },
        );
    }

    /// Draws indexed `draw_count` times with arguments read from `buffer`
    /// at `offset`, 20 bytes apart, after readying the graphics bind point.
    pub fn draw_indexed_indirect(
        &mut self,
        buffer: &Buffer,
        offset: u64,
        draw_count: u32,
        stride: u32,
    )
        requires
            old(self).wf(),
            graphics_ready(*old(self)),
            stride == 20,
        ensures
            final(self).wf(),
            readied(*old(self), *final(self), BindPoint::Graphics),
            after_flush(old(self).gr_pipeline, final(self).gr_pipeline),
            final(self).log() == old(self).log() + graphics_prelude(*old(self)) + seq![
                NativeOp::ExecuteIndirect {
                    kind: IndirectKind::DrawIndexed,
                    count: draw_count,
                    buffer: buffer.resource,
                    offset,
                },
            ],
    {
        self.set_graphics_bind_point();
        record(
            &mut self.commands,
            NativeCommand::ExecuteIndirect {
                kind: IndirectKind::DrawIndexed,
                count: draw_count,
                buffer: buffer.resource,
                offset,
            },
        );
    }
}

/// What binding `sets` at `first_set` of `layout` did to a pipeline cache
/// and the command list; see `bind_descriptor_sets`.
pub open spec fn bound_sets(
    log0: Seq<NativeOp>,
    log1: Seq<NativeOp>,
    cache_before: PipelineCache,
    cache_after: PipelineCache,
    layout: PipelineLayout,
    first_set: int,
    sets: Seq<DescriptorSet>,
) -> bool {
    &&& sets.len() == 0 ==> log1 == log0 && cache_after == cache_before
    &&& sets.len() > 0 ==> {
        let s0 = sets[0];
        let first = constant_registers(layout.root_constants@) + crate::pipeline::tables_before(
            layout.tables@,
            first_set,
        );
        let n = crate::pipeline::bound_count(layout.tables@.len() as int, first_set, sets.len() as int);
        &&& log1 == log0.push(
            NativeOp::SetDescriptorHeaps {
                srv_cbv_uav: s0.heap_srv_cbv_uav,
                sampler: s0.heap_samplers,
            },
        )
        &&& cache_after.srv_cbv_uav_start == s0.srv_cbv_uav_gpu_start
        &&& cache_after.sampler_start == s0.sampler_gpu_start
        &&& cache_after.pipeline == cache_before.pipeline
        &&& cache_after.num_parameter_slots == cache_before.num_parameter_slots
        &&& cache_after.root_constants@ == cache_before.root_constants@
        &&& forall|r: int|
            0 <= r < ROOT_SIGNATURE_SIZE ==> {
                let e = crate::pipeline::bound_element(
                    sets,
                    n,
                    first,
                    s0.srv_cbv_uav_gpu_start,
                    s0.sampler_gpu_start,
                    r,
                );
                &&& #[trigger] cache_after.user_data.data@[r] == if e is Some {
                    e->0
                } else {
                    cache_before.user_data.data@[r]
                }
                &&& cache_after.user_data.is_dirty(r) == (cache_before.user_data.is_dirty(r) || e is Some)
            }
    }
}

/// What pushing `constants` at `offset` did to a pipeline cache; see `push_constants`.
pub open spec fn pushed(
    cache_before: PipelineCache,
    cache_after: PipelineCache,
    layout: PipelineLayout,
    offset: int,
    constants: Seq<u32>,
) -> bool {
    let rcs = layout.root_constants@;
    &&& cache_after.pipeline == cache_before.pipeline
    &&& cache_after.num_parameter_slots == cache_before.num_parameter_slots
    &&& cache_after.root_constants == cache_before.root_constants
    &&& cache_after.srv_cbv_uav_start == cache_before.srv_cbv_uav_start
    &&& cache_after.sampler_start == cache_before.sampler_start
    &&& cache_after.user_data.data@ == pushed_data(cache_before.user_data.data@, rcs, rcs.len() as int, offset, constants)
    &&& forall|r: int|
        0 <= r < ROOT_SIGNATURE_SIZE ==> #[trigger] cache_after.user_data.is_dirty(r) == (
        cache_before.user_data.is_dirty(r) || pushed_dirty(rcs, rcs.len() as int, offset, constants, r))
}

} // verus!

verus! {

/// The native query type that ending `query` closes, given the tracked
/// queries; `None` where no tracked query matches it.
pub open spec fn ending_kind(
    occlusion: Option<OcclusionQuery>,
    stats: Option<u32>,
    query: Query,
) -> Option<QueryKind> {
    match query.pool.ty {
        QueryPoolType::Occlusion => if occlusion == Some(OcclusionQuery::Precise(query.id)) {
            Some(QueryKind::Occlusion)
        } else if occlusion == Some(OcclusionQuery::Binary(query.id)) {
            Some(QueryKind::BinaryOcclusion)
        } else {
            None
        },
        QueryPoolType::PipelineStatistics => if stats == Some(query.id) {
            Some(QueryKind::PipelineStatistics)
        } else {
            None
        },
        QueryPoolType::Timestamp => None,
    }
}

/// The vertex buffer view for `buffer` from byte `offset` on.
pub open spec fn buffer_view(buffer: Buffer, offset: u32, stride: u32) -> VertexBufferView {
    VertexBufferView {
        location: (buffer.gpu_address + offset) as u64,
        size_in_bytes: (buffer.size_in_bytes - offset) as u32,
        stride_in_bytes: stride,
    }
}

impl CommandBuffer {
    /// Begins `query`: an occlusion query is tracked as precise or binary
    /// (per `precise`), a pipeline-statistics query in its own slot.
    pub fn begin_query(&mut self, query: Query, precise: bool)
        requires
            query.pool.ty != QueryPoolType::Timestamp,
        ensures
            query.pool.ty == QueryPoolType::Occlusion ==> {
                &&& final(self).occlusion_query == Some(
                    if precise {
                        OcclusionQuery::Precise(query.id)
                    } else {
                        OcclusionQuery::Binary(query.id)
                    },
                )
                &&& final(self).pipeline_stats_query == old(self).pipeline_stats_query
            },
            query.pool.ty == QueryPoolType::PipelineStatistics ==> {
                &&& final(self).pipeline_stats_query == Some(query.id)
                &&& final(self).occlusion_query == old(self).occlusion_query
            },
            final(self).log() == old(self).log().push(
                NativeOp::BeginQuery {
                    heap: query.pool.heap,
                    kind: if query.pool.ty == QueryPoolType::PipelineStatistics {
                        QueryKind::PipelineStatistics
                    } else if precise {
                        QueryKind::Occlusion
                    } else {
                        QueryKind::BinaryOcclusion
                    },
                    id: query.id,
                },
            ),
            final(self).pass_cache == old(self).pass_cache,
            final(self).cur_subpass == old(self).cur_subpass,
            final(self).gr_pipeline == old(self).gr_pipeline,
            final(self).comp_pipeline == old(self).comp_pipeline,
            final(self).active_bindpoint == old(self).active_bindpoint,
            final(self).copies@ == old(self).copies@,
    {
        let kind = match query.pool.ty {
            QueryPoolType::Occlusion => {
                if precise {
                    self.occlusion_query = Some(OcclusionQuery::Precise(query.id));
                    QueryKind::Occlusion
                } else {
                    self.occlusion_query = Some(OcclusionQuery::Binary(query.id));
                    QueryKind::BinaryOcclusion
                }
            },
            _ => {
                self.pipeline_stats_query = Some(query.id);
                QueryKind::PipelineStatistics
            },
        };
        record(&mut self.commands, NativeCommand::BeginQuery { heap: query.pool.heap, kind, id: query.id });
    }

    /// Ends `query`, which must be the tracked query of its type, and stops
    /// tracking it.
    pub fn end_query(&mut self, query: Query)
        requires
            ending_kind(old(self).occlusion_query, old(self).pipeline_stats_query, query) is Some,
        ensures
            query.pool.ty == QueryPoolType::Occlusion ==> {
                &&& final(self).occlusion_query is None
                &&& final(self).pipeline_stats_query == old(self).pipeline_stats_query
            },
            query.pool.ty == QueryPoolType::PipelineStatistics ==> {
                &&& final(self).pipeline_stats_query is None
                &&& final(self).occlusion_query == old(self).occlusion_query
            },
            final(self).log() == old(self).log().push(
                NativeOp::EndQuery {
                    heap: query.pool.heap,
                    kind: ending_kind(old(self).occlusion_query, old(self).pipeline_stats_query, query)->0,
                    id: query.id,
                },
            ),
            final(self).pass_cache == old(self).pass_cache,
            final(self).cur_subpass == old(self).cur_subpass,
            final(self).gr_pipeline == old(self).gr_pipeline,
            final(self).comp_pipeline == old(self).comp_pipeline,
            final(self).active_bindpoint == old(self).active_bindpoint,
            final(self).copies@ == old(self).copies@,
    {
        let id = query.id;
        let kind = match query.pool.ty {
            QueryPoolType::Occlusion => {
                let k = if self.occlusion_query == Some(OcclusionQuery::Precise(id)) {
                    QueryKind::Occlusion
                } else {
                    QueryKind::BinaryOcclusion
                };
                self.occlusion_query = None;
                k
            },
            _ => {
                self.pipeline_stats_query = None;
                QueryKind::PipelineStatistics
            },
        };
        record(&mut self.commands, NativeCommand::EndQuery { heap: query.pool.heap, kind, id });
    }

    /// Writes a timestamp into `query`; timestamps are not tracked.
    pub fn write_timestamp(&mut self, query: Query)
        ensures
            final(self).log() == old(self).log().push(
                NativeOp::EndQuery {
                    heap: query.pool.heap,
                    kind: QueryKind::Timestamp,
                    id: query.id,
                },
            ),
            same_state(*old(self), *final(self)),
    {
        record(
            &mut self.commands,
            NativeCommand::EndQuery { heap: query.pool.heap, kind: QueryKind::Timestamp, id: query.id },
        );
    }

    /// Resetting a query pool records nothing: queries only leave the
    /// active state through `end_query`.
    pub fn reset_query_pool(&mut self, pool: &QueryPool, queries: Range<u32>)
        ensures
            final(self).log() == old(self).log(),
            same_state(*old(self), *final(self)),
    {
    }

    /// Binds the index buffer `buffer` from byte `offset` on.
    pub fn bind_index_buffer(&mut self, buffer: &Buffer, offset: u64, index_type: IndexType)
        requires
            offset <= buffer.size_in_bytes,
            buffer.gpu_address + offset <= u64::MAX,
        ensures
            final(self).log() == old(self).log().push(
                NativeOp::SetIndexBuffer {
                    location: (buffer.gpu_address + offset) as u64,
                    size_in_bytes: (buffer.size_in_bytes - offset) as u32,
                    format: match index_type {
                        IndexType::U16 => crate::native::IndexFormat::R16Uint,
                        IndexType::U32 => crate::native::IndexFormat::R32Uint,
                    },
                },
            ),
            same_state(*old(self), *final(self)),
    {
        let format = match index_type {
            IndexType::U16 => crate::native::IndexFormat::R16Uint,
            IndexType::U32 => crate::native::IndexFormat::R32Uint,
        };
        record(
            &mut self.commands,
            NativeCommand::SetIndexBuffer {
                location: buffer.gpu_address + offset,
                size_in_bytes: buffer.size_in_bytes - offset as u32,
                format,
            },
        );
    }

    /// Caches vertex buffer views for slots `0..` from `(buffer, offset)`
    /// pairs; their strides come from the bound pipeline. Nothing is recorded.
    pub fn bind_vertex_buffers(&mut self, vbs: &[(Buffer, u32)])
        requires
            forall|j: int|
                0 <= j < vbs@.len() ==> {
                    &&& (#[trigger] vbs@[j]).1 <= vbs@[j].0.size_in_bytes
                    &&& vbs@[j].0.gpu_address + vbs@[j].1 <= u64::MAX
                },
        ensures
            final(self).log() == old(self).log(),
            forall|i: int|
                0 <= i < MAX_VERTEX_BUFFERS ==> #[trigger] final(self).vertex_buffer_views@[i] == if i
                    < vbs@.len() {
                    buffer_view(vbs@[i].0, vbs@[i].1, old(self).vertex_buffer_views@[i].stride_in_bytes)
                } else {
                    old(self).vertex_buffer_views@[i]
                },
            final(self).pass_cache == old(self).pass_cache,
            final(self).cur_subpass == old(self).cur_subpass,
            final(self).gr_pipeline == old(self).gr_pipeline,
            final(self).comp_pipeline == old(self).comp_pipeline,
            final(self).active_bindpoint == old(self).active_bindpoint,
            final(self).occlusion_query == old(self).occlusion_query,
            final(self).pipeline_stats_query == old(self).pipeline_stats_query,
            final(self).copies@ == old(self).copies@,
    {
        let ghost views0 = self.vertex_buffer_views@;
        let mut views = self.vertex_buffer_views;
        let mut i: usize = 0;
        while i < MAX_VERTEX_BUFFERS && i < vbs.len()
            invariant
                0 <= i <= MAX_VERTEX_BUFFERS,
                i <= vbs@.len(),
                views0 == old(self).vertex_buffer_views@,
                forall|j: int|
                    0 <= j < vbs@.len() ==> {
                        &&& (#[trigger] vbs@[j]).1 <= vbs@[j].0.size_in_bytes
                        &&& vbs@[j].0.gpu_address + vbs@[j].1 <= u64::MAX
                    },
                forall|k: int|
                    0 <= k < MAX_VERTEX_BUFFERS ==> #[trigger] views@[k] == if k < i {
                        buffer_view(vbs@[k].0, vbs@[k].1, views0[k].stride_in_bytes)
                    } else {
                        views0[k]
                    },
            decreases MAX_VERTEX_BUFFERS - i,
        {
            let (buffer, offset) = vbs[i];
            let mut view = views[i];
            view.location = buffer.gpu_address + offset as u64;
            view.size_in_bytes = buffer.size_in_bytes - offset;
            views[i] = view;
            i = i + 1;
        }
        self.vertex_buffer_views = views;
    }

    /// Copies byte ranges between buffers, one native copy per region.
    pub fn copy_buffer(&mut self, src: &Buffer, dst: &Buffer, regions: &[BufferCopy])
        ensures
            final(self).log() == old(self).log() + Seq::new(
                regions@.len(),
                |j: int|
                    NativeOp::CopyBufferRegion {
                        dst: dst.resource,
                        dst_offset: regions@[j].dst,
                        src: src.resource,
                        src_offset: regions@[j].src,
                        size: regions@[j].size,
                    },
            ),
            same_state(*old(self), *final(self)),
    {
        let ghost log0 = self.log();
        let mut j: usize = 0;
        while j < regions.len()
            invariant
                0 <= j <= regions@.len(),
                same_state(*old(self), *self),
                self.log() == log0 + Seq::new(
                    j as nat,
                    |k: int|
                        NativeOp::CopyBufferRegion {
                            dst: dst.resource,
                            dst_offset: regions@[k].dst,
                            src: src.resource,
                            src_offset: regions@[k].src,
                            size: regions@[k].size,
                        },
                ),
            decreases regions@.len() - j,
        {
            let region = regions[j];
            record(
                &mut self.commands,
                NativeCommand::CopyBufferRegion {
                    dst: dst.resource,
                    dst_offset: region.dst,
                    src: src.resource,
                    src_offset: region.src,
                    size: region.size,
                },
            );
            proof {
                assert(self.log() =~= log0 + Seq::new(
                    (j + 1) as nat,
                    |k: int|
                        NativeOp::CopyBufferRegion {
                            dst: dst.resource,
                            dst_offset: regions@[k].dst,
                            src: src.resource,
                            src_offset: regions@[k].src,
                            size: regions@[k].size,
                        },
                ));
            }
            j = j + 1;
        }
    }

    /// Fills the whole of `buffer` with `data` through its clear view,
    /// moving it from the copy-destination state to unordered access and back.
    pub fn fill_buffer(&mut self, buffer: &Buffer, range: Range<u64>, data: u32)
        requires
            buffer.clear_uav is Some,
            range.start == 0,
            range.end == buffer.size_in_bytes,
        ensures
            final(self).log() == old(self).log() + seq![
                NativeOp::ResourceBarriers {
                    barriers: seq![
                        ResourceBarrier::Transition {
                            resource: buffer.resource,
                            subresource: ALL_SUBRESOURCES,
                            before: crate::native::STATE_COPY_DEST,
                            after: crate::native::STATE_UNORDERED_ACCESS,
                            flags: 0,
                        },
                    ],
                },
                NativeOp::ClearUnorderedAccessViewUint {
                    gpu: (buffer.clear_uav->0).gpu,
                    cpu: (buffer.clear_uav->0).cpu,
                    resource: buffer.resource,
                    values: seq![data, data, data, data],
                },
                NativeOp::ResourceBarriers {
                    barriers: seq![
                        ResourceBarrier::Transition {
                            resource: buffer.resource,
                            subresource: ALL_SUBRESOURCES,
                            before: crate::native::STATE_UNORDERED_ACCESS,
                            after: crate::native::STATE_COPY_DEST,
                            flags: 0,
                        },
                    ],
                },
            ],
            same_state(*old(self), *final(self)),
    {
        let ghost log0 = self.log();
        let handles = buffer.clear_uav.unwrap();
        record(
            &mut self.commands,
            NativeCommand::ResourceBarriers {
                barriers: one_barrier(
                    ResourceBarrier::transition(
                        buffer.resource,
                        ALL_SUBRESOURCES,
                        crate::native::STATE_COPY_DEST,
                        crate::native::STATE_UNORDERED_ACCESS,
                    ),
                ),
            },
        );
        let values = [data, data, data, data];
        record(
            &mut self.commands,
            NativeCommand::ClearUnorderedAccessViewUint {
                gpu: handles.gpu,
                cpu: handles.cpu,
                resource: buffer.resource,
                values,
            },
        );
        record(
            &mut self.commands,
            NativeCommand::ResourceBarriers {
                barriers: one_barrier(
                    ResourceBarrier::transition(
                        buffer.resource,
                        ALL_SUBRESOURCES,
                        crate::native::STATE_UNORDERED_ACCESS,
                        crate::native::STATE_COPY_DEST,
                    ),
                ),
            },
        );
        proof {
            assert(values@ =~= seq![data, data, data, data]);
            assert(self.log() =~= log0 + seq![
                NativeOp::ResourceBarriers {
                    barriers: seq![
                        ResourceBarrier::Transition {
                            resource: buffer.resource,
                            subresource: ALL_SUBRESOURCES,
                            before: crate::native::STATE_COPY_DEST,
                            after: crate::native::STATE_UNORDERED_ACCESS,
                            flags: 0,
                        },
                    ],
                },
                NativeOp::ClearUnorderedAccessViewUint {
                    gpu: handles.gpu,
                    cpu: handles.cpu,
                    resource: buffer.resource,
                    values: seq![data, data, data, data],
                },
                NativeOp::ResourceBarriers {
                    barriers: seq![
                        ResourceBarrier::Transition {
                            resource: buffer.resource,
                            subresource: ALL_SUBRESOURCES,
                            before: crate::native::STATE_UNORDERED_ACCESS,
                            after: crate::native::STATE_COPY_DEST,
                            flags: 0,
                        },
                    ],
                },
            ]);
        }
    }
}

/// A list holding the one barrier `b`.
fn one_barrier(b: ResourceBarrier) -> (v: Vec<ResourceBarrier>)
    ensures
        v@ == seq![b],
{
    let mut v: Vec<ResourceBarrier> = Vec::new();
    v.push(b);
    proof {
        assert(v@ =~= seq![b]);
    }
    v
}

/// Type of the indices in an index buffer.
#[derive(Debug, Clone, Copy, PartialEq, Eq, Structural)]
pub enum IndexType {
    U16,
    U32,
}

/// A buffer-to-buffer copy of `size` bytes from offset `src` to offset `dst`.
#[derive(Debug, Clone, Copy, PartialEq, Eq, Structural)]
pub struct BufferCopy {
    pub src: u64,
    pub dst: u64,
    pub size: u64,
}

} // verus!

verus! {

/// An image-to-image copy: `num_layers` layers from `src_layer_start` of
/// mip `src_level` to the layers from `dst_layer_start` of mip `dst_level`,
/// the box at `src_offset` of size `extent` going to `dst_offset`.
#[derive(Debug, Clone, Copy, PartialEq, Eq, Structural)]
pub struct ImageCopy {
    pub src_level: u32,
    pub src_layer_start: u32,
    pub dst_level: u32,
    pub dst_layer_start: u32,
    pub num_layers: u32,
    pub src_offset: Offset,
    pub dst_offset: Offset,
    pub extent: Extent,
}

/// A multisample resolve: `extent.depth` layers from `src_layer_start` of
/// mip `src_level` into the layers from `dst_layer_start` of mip `dst_level`.
#[derive(Debug, Clone, Copy, PartialEq, Eq, Structural)]
pub struct ImageResolve {
    pub src_level: u32,
    pub src_layer_start: u32,
    pub dst_level: u32,
    pub dst_layer_start: u32,
    pub extent: Extent,
}

/// A clear of an attachment of the current subpass.
#[derive(Debug, Clone, Copy, PartialEq, Eq, Structural)]
pub enum AttachmentClearCmd {
    /// Clear color attachment `index` of the current subpass to `value`.
    Color { index: usize, value: ClearValueRaw },
    /// Clear the depth/stencil attachment.
    DepthStencil { depth: Option<u32>, stencil: Option<u32> },
}

/// The copy region is one `copy_image` accepts.
pub open spec fn image_copy_ok(src: ImageInfo, dst: ImageInfo, r: ImageCopy) -> bool {
    &&& src.wf()
    &&& dst.wf()
    &&& r.src_level < src.levels
    &&& r.dst_level < dst.levels
    &&& r.src_layer_start + r.num_layers <= src.layers
    &&& r.dst_layer_start + r.num_layers <= dst.layers
    &&& 0 <= r.src_offset.x && r.src_offset.x + r.extent.width <= i32::MAX
    &&& 0 <= r.src_offset.y && r.src_offset.y + r.extent.height <= i32::MAX
    &&& 0 <= r.src_offset.z && r.src_offset.z + r.extent.depth <= i32::MAX
    &&& 0 <= r.dst_offset.x && 0 <= r.dst_offset.y && 0 <= r.dst_offset.z
}

/// The source box of an image copy.
pub open spec fn source_box(r: ImageCopy) -> NativeBox {
    NativeBox {
        left: r.src_offset.x as u32,
        top: r.src_offset.y as u32,
        front: r.src_offset.z as u32,
        right: (r.src_offset.x + r.extent.width) as u32,
        bottom: (r.src_offset.y + r.extent.height) as u32,
        back: (r.src_offset.z + r.extent.depth) as u32,
    }
}

/// The per-layer copies of layers `0..n` of region `r`.
pub open spec fn image_copy_layers(src: ImageInfo, dst: ImageInfo, r: ImageCopy, n: int) -> Seq<NativeOp>
    decreases n,
{
    if n <= 0 {
        Seq::empty()
    } else {
        image_copy_layers(src, dst, r, n - 1).push(
            NativeOp::CopyTextureRegion {
                dst: CopyLocation::Subresource {
                    resource: dst.resource,
                    index: dst.subresource(r.dst_level as int, r.dst_layer_start + n - 1) as u32,
                },
                dst_x: r.dst_offset.x as u32,
                dst_y: r.dst_offset.y as u32,
                dst_z: r.dst_offset.z as u32,
                src: CopyLocation::Subresource {
                    resource: src.resource,
                    index: src.subresource(r.src_level as int, r.src_layer_start + n - 1) as u32,
                },
                src_box: source_box(r),
            },
        )
    }
}

/// The copies of regions `0..n`.
pub open spec fn image_copies(src: ImageInfo, dst: ImageInfo, regions: Seq<ImageCopy>, n: int) -> Seq<NativeOp>
    decreases n,
{
    if n <= 0 {
        Seq::empty()
    } else {
        image_copies(src, dst, regions, n - 1) + image_copy_layers(
            src,
            dst,
            regions[n - 1],
            regions[n - 1].num_layers as int,
        )
    }
}

/// The placed-footprint location of copy `c` in `buffer`.
pub open spec fn footprint_location(buffer: Buffer, img: ImageInfo, c: FootprintCopy) -> CopyLocation {
    CopyLocation::Footprint {
        resource: buffer.resource,
        offset: c.footprint_offset,
        format: img.format,
        width: c.footprint.width,
        height: c.footprint.height,
        depth: c.footprint.depth,
        row_pitch: c.row_pitch,
    }
}

/// The box of `extent` at `o`.
pub open spec fn box_at(o: Offset, e: Extent) -> NativeBox {
    NativeBox {
        left: o.x as u32,
        top: o.y as u32,
        front: o.z as u32,
        right: (o.x as u32 + e.width) as u32,
        bottom: (o.y as u32 + e.height) as u32,
        back: (o.z as u32 + e.depth) as u32,
    }
}

/// The native copy from the buffer into the image for copy `c`.
pub open spec fn to_image_op(buffer: Buffer, img: ImageInfo, c: FootprintCopy) -> NativeOp {
    NativeOp::CopyTextureRegion {
        dst: CopyLocation::Subresource { resource: img.resource, index: c.img_subresource },
        dst_x: c.img_offset.x as u32,
        dst_y: c.img_offset.y as u32,
        dst_z: c.img_offset.z as u32,
        src: footprint_location(buffer, img, c),
        src_box: box_at(c.buf_offset, c.copy_extent),
    }
}

/// The native copy from the image into the buffer for copy `c`.
pub open spec fn to_buffer_op(buffer: Buffer, img: ImageInfo, c: FootprintCopy) -> NativeOp {
    NativeOp::CopyTextureRegion {
        dst: footprint_location(buffer, img, c),
        dst_x: c.buf_offset.x as u32,
        dst_y: c.buf_offset.y as u32,
        dst_z: c.buf_offset.z as u32,
        src: CopyLocation::Subresource { resource: img.resource, index: c.img_subresource },
        src_box: box_at(c.img_offset, c.copy_extent),
    }
}

pub proof fn lemma_all_copies_fit(regions: Seq<BufferImageCopy>, img: ImageInfo, n: int)
    requires
        0 <= n <= regions.len(),
        forall|j: int| 0 <= j < regions.len() ==> region_ok(#[trigger] regions[j], img),
    ensures
        forall|k: int|
            0 <= k < all_copies(regions, img, n).len() ==> copy_boxes_fit(
                #[trigger] all_copies(regions, img, n)[k],
            ),
    decreases n,
{
    if n > 0 {
        lemma_all_copies_fit(regions, img, n - 1);
        lemma_split_copies_fit(regions[n - 1], img);
        let a = all_copies(regions, img, n - 1);
        let b = split_copies(regions[n - 1], img);
        assert forall|k: int| 0 <= k < (a + b).len() implies copy_boxes_fit(#[trigger] (a + b)[k]) by {
            if k < a.len() {
                assert((a + b)[k] == a[k]);
            } else {
                assert((a + b)[k] == b[k - a.len()]);
            }
        }
    }
}

/// The footprint copies of regions `0..n`.
pub open spec fn all_copies(regions: Seq<BufferImageCopy>, img: ImageInfo, n: int) -> Seq<FootprintCopy>
    decreases n,
{
    if n <= 0 {
        Seq::empty()
    } else {
        all_copies(regions, img, n - 1) + split_copies(regions[n - 1], img)
    }
}

/// The resolves of layers `0..n` of region `r`.
pub open spec fn resolve_layers(src: ImageInfo, dst: ImageInfo, r: ImageResolve, n: int) -> Seq<NativeOp>
    decreases n,
{
    if n <= 0 {
        Seq::empty()
    } else {
        resolve_layers(src, dst, r, n - 1).push(
            NativeOp::ResolveSubresource {
                src: src.resource,
                src_subresource: src.subresource(r.src_level as int, r.src_layer_start + n - 1) as u32,
                dst: dst.resource,
                dst_subresource: dst.subresource(r.dst_level as int, r.dst_layer_start + n - 1) as u32,
                format: src.format,
            },
        )
    }
}

/// The resolves of regions `0..n`.
pub open spec fn resolves(src: ImageInfo, dst: ImageInfo, regions: Seq<ImageResolve>, n: int) -> Seq<NativeOp>
    decreases n,
{
    if n <= 0 {
        Seq::empty()
    } else {
        resolves(src, dst, regions, n - 1) + resolve_layers(
            src,
            dst,
            regions[n - 1],
            regions[n - 1].extent.depth as int,
        )
    }
}

/// One whole-resource transition of `resource`, as a batch.
pub open spec fn single_transition(resource: u64, before: u32, after: u32) -> NativeOp {
    NativeOp::ResourceBarriers {
        barriers: seq![
            ResourceBarrier::Transition {
                resource,
                subresource: ALL_SUBRESOURCES,
                before,
                after,
                flags: 0,
            },
        ],
    }
}

impl CommandBuffer {
    /// Records one barrier batch: the translated barriers, then a global
    /// UAV barrier and a global aliasing barrier.
    pub fn pipeline_barrier(&mut self, barriers: &[Barrier])
        requires
            forall|j: int| 0 <= j < barriers@.len() ==> barrier_ok(#[trigger] barriers@[j]),
        ensures
            final(self).log() == old(self).log().push(
                NativeOp::ResourceBarriers { barriers: barrier_batch(barriers@) },
            ),
            same_state(*old(self), *final(self)),
    {
        let batch = translate_barriers(barriers);
        record(&mut self.commands, NativeCommand::ResourceBarriers { barriers: batch });
    }

    /// Copies between images, one native copy per layer of each region.
    pub fn copy_image(&mut self, src: &ImageInfo, dst: &ImageInfo, regions: &[ImageCopy])
        requires
            forall|j: int| 0 <= j < regions@.len() ==> image_copy_ok(*src, *dst, #[trigger] regions@[j]),
        ensures
            final(self).log() == old(self).log() + image_copies(
                *src,
                *dst,
                regions@,
                regions@.len() as int,
            ),
            same_state(*old(self), *final(self)),
    {
        let ghost log0 = self.log();
        let mut j: usize = 0;
        while j < regions.len()
            invariant
                forall|k: int| 0 <= k < regions@.len() ==> image_copy_ok(*src, *dst, #[trigger] regions@[k]),
                0 <= j <= regions@.len(),
                same_state(*old(self), *self),
                self.log() == log0 + image_copies(*src, *dst, regions@, j as int),
            decreases regions@.len() - j,
        {
            let r = regions[j];
            let src_box = NativeBox {
                left: r.src_offset.x as u32,
                top: r.src_offset.y as u32,
                front: r.src_offset.z as u32,
                right: (r.src_offset.x + r.extent.width as i32) as u32,
                bottom: (r.src_offset.y + r.extent.height as i32) as u32,
                back: (r.src_offset.z + r.extent.depth as i32) as u32,
            };
            let ghost mid = self.log();
            let mut layer: u32 = 0;
            while layer < r.num_layers
                invariant
                    image_copy_ok(*src, *dst, r),
                    src_box == source_box(r),
                    0 <= layer <= r.num_layers,
                    same_state(*old(self), *self),
                    self.log() == mid + image_copy_layers(*src, *dst, r, layer as int),
                decreases r.num_layers - layer,
            {
                let src_index = src.calc_subresource(r.src_level, r.src_layer_start + layer);
                let dst_index = dst.calc_subresource(r.dst_level, r.dst_layer_start + layer);
                record(
                    &mut self.commands,
                    NativeCommand::CopyTextureRegion {
                        dst: CopyLocation::Subresource { resource: dst.resource, index: dst_index },
                        dst_x: r.dst_offset.x as u32,
                        dst_y: r.dst_offset.y as u32,
                        dst_z: r.dst_offset.z as u32,
                        src: CopyLocation::Subresource { resource: src.resource, index: src_index },
                        src_box,
                    },
                );
                layer = layer + 1;
            }
            proof {
                assert(self.log() =~= log0 + image_copies(*src, *dst, regions@, j + 1));
            }
            j = j + 1;
        }
    }

    /// Splits every region into placed-footprint copies in the scratch list.
    fn split_regions(&mut self, regions: &[BufferImageCopy], image: &ImageInfo)
        requires
            old(self).copies@.len() == 0,
            forall|j: int| 0 <= j < regions@.len() ==> region_ok(#[trigger] regions@[j], *image),
        ensures
            final(self).copies@ == all_copies(regions@, *image, regions@.len() as int),
            final(self).commands == old(self).commands,
            final(self).pass_cache == old(self).pass_cache,
            final(self).cur_subpass == old(self).cur_subpass,
            final(self).gr_pipeline == old(self).gr_pipeline,
            final(self).comp_pipeline == old(self).comp_pipeline,
            final(self).active_bindpoint == old(self).active_bindpoint,
            final(self).occlusion_query == old(self).occlusion_query,
            final(self).pipeline_stats_query == old(self).pipeline_stats_query,
            final(self).vertex_buffer_views == old(self).vertex_buffer_views,
            viewport_items(final(self).viewport_cache) == viewport_items(old(self).viewport_cache),
            scissor_items(final(self).scissor_cache) == scissor_items(old(self).scissor_cache),
    {
        let mut j: usize = 0;
        while j < regions.len()
            invariant
                forall|k: int| 0 <= k < regions@.len() ==> region_ok(#[trigger] regions@[k], *image),
                0 <= j <= regions@.len(),
                self.copies@ == all_copies(regions@, *image, j as int),
                self.commands == old(self).commands,
                self.pass_cache == old(self).pass_cache,
                self.cur_subpass == old(self).cur_subpass,
                self.gr_pipeline == old(self).gr_pipeline,
                self.comp_pipeline == old(self).comp_pipeline,
                self.active_bindpoint == old(self).active_bindpoint,
                self.occlusion_query == old(self).occlusion_query,
                self.pipeline_stats_query == old(self).pipeline_stats_query,
                self.vertex_buffer_views == old(self).vertex_buffer_views,
                viewport_items(self.viewport_cache) == viewport_items(old(self).viewport_cache),
                scissor_items(self.scissor_cache) == scissor_items(old(self).scissor_cache),
            decreases regions@.len() - j,
        {
            split_buffer_copy(&mut self.copies, &regions[j], image);
            j = j + 1;
        }
    }

    /// Copies regions of `buffer` into `image`: splits each region into
    /// placed-footprint copies and records one native copy for each.
    pub fn copy_buffer_to_image(
        &mut self,
        buffer: &Buffer,
        image: &ImageInfo,
        regions: &[BufferImageCopy],
    )
        requires
            old(self).wf(),
            forall|j: int| 0 <= j < regions@.len() ==> region_ok(#[trigger] regions@[j], *image),
        ensures
            final(self).wf(),
            final(self).log() == old(self).log() + all_copies(
                regions@,
                *image,
                regions@.len() as int,
            ).map_values(|c: FootprintCopy| to_image_op(*buffer, *image, c)),
            same_state(*old(self), *final(self)),
    {
        self.split_regions(regions, image);
        proof {
            lemma_all_copies_fit(regions@, *image, regions@.len() as int);
        }
        let ghost log0 = self.log();
        let ghost all = self.copies@;
        let mut k: usize = 0;
        while k < self.copies.len()
            invariant
                all == self.copies@,
                0 <= k <= all.len(),
                forall|i: int| 0 <= i < all.len() ==> copy_boxes_fit(#[trigger] all[i]),
                self.log() == log0 + all.take(k as int).map_values(
                    |c: FootprintCopy| to_image_op(*buffer, *image, c),
                ),
                self.pass_cache == old(self).pass_cache,
                self.cur_subpass == old(self).cur_subpass,
                self.gr_pipeline == old(self).gr_pipeline,
                self.comp_pipeline == old(self).comp_pipeline,
                self.active_bindpoint == old(self).active_bindpoint,
                self.occlusion_query == old(self).occlusion_query,
                self.pipeline_stats_query == old(self).pipeline_stats_query,
                self.vertex_buffer_views == old(self).vertex_buffer_views,
                viewport_items(self.viewport_cache) == viewport_items(old(self).viewport_cache),
                scissor_items(self.scissor_cache) == scissor_items(old(self).scissor_cache),
            decreases all.len() - k,
        {
            let c = self.copies[k];
            let src_box = NativeBox {
                left: c.buf_offset.x as u32,
                top: c.buf_offset.y as u32,
                front: c.buf_offset.z as u32,
                right: c.buf_offset.x as u32 + c.copy_extent.width,
                bottom: c.buf_offset.y as u32 + c.copy_extent.height,
                back: c.buf_offset.z as u32 + c.copy_extent.depth,
            };
            record(
                &mut self.commands,
                NativeCommand::CopyTextureRegion {
                    dst: CopyLocation::Subresource { resource: image.resource, index: c.img_subresource },
                    dst_x: c.img_offset.x as u32,
                    dst_y: c.img_offset.y as u32,
                    dst_z: c.img_offset.z as u32,
                    src: CopyLocation::Footprint {
                        resource: buffer.resource,
                        offset: c.footprint_offset,
                        format: image.format,
                        width: c.footprint.width,
                        height: c.footprint.height,
                        depth: c.footprint.depth,
                        row_pitch: c.row_pitch,
                    },
                    src_box,
                },
            );
            proof {
                assert(all.take(k + 1).map_values(|c: FootprintCopy| to_image_op(*buffer, *image, c))
                    =~= all.take(k as int).map_values(
                    |c: FootprintCopy| to_image_op(*buffer, *image, c),
                ).push(to_image_op(*buffer, *image, all[k as int])));
            }
            k = k + 1;
        }
        proof {
            assert(all.take(k as int) =~= all);
        }
        self.copies.clear();
        proof {
            assert(self.copies@ =~= old(self).copies@);
        }
    }

    /// Copies regions of `image` into `buffer`: splits each region into
    /// placed-footprint copies and records one native copy for each.
    pub fn copy_image_to_buffer(
        &mut self,
        image: &ImageInfo,
        buffer: &Buffer,
        regions: &[BufferImageCopy],
    )
        requires
            old(self).wf(),
            forall|j: int| 0 <= j < regions@.len() ==> region_ok(#[trigger] regions@[j], *image),
        ensures
            final(self).wf(),
            final(self).log() == old(self).log() + all_copies(
                regions@,
                *image,
                regions@.len() as int,
            ).map_values(|c: FootprintCopy| to_buffer_op(*buffer, *image, c)),
            same_state(*old(self), *final(self)),
    {
        self.split_regions(regions, image);
        proof {
            lemma_all_copies_fit(regions@, *image, regions@.len() as int);
        }
        let ghost log0 = self.log();
        let ghost all = self.copies@;
        let mut k: usize = 0;
        while k < self.copies.len()
            invariant
                all == self.copies@,
                0 <= k <= all.len(),
                forall|i: int| 0 <= i < all.len() ==> copy_boxes_fit(#[trigger] all[i]),
                self.log() == log0 + all.take(k as int).map_values(
                    |c: FootprintCopy| to_buffer_op(*buffer, *image, c),
                ),
                self.pass_cache == old(self).pass_cache,
                self.cur_subpass == old(self).cur_subpass,
                self.gr_pipeline == old(self).gr_pipeline,
                self.comp_pipeline == old(self).comp_pipeline,
                self.active_bindpoint == old(self).active_bindpoint,
                self.occlusion_query == old(self).occlusion_query,
                self.pipeline_stats_query == old(self).pipeline_stats_query,
                self.vertex_buffer_views == old(self).vertex_buffer_views,
                viewport_items(self.viewport_cache) == viewport_items(old(self).viewport_cache),
                scissor_items(self.scissor_cache) == scissor_items(old(self).scissor_cache),
            decreases all.len() - k,
        {
            let c = self.copies[k];
            let src_box = NativeBox {
                left: c.img_offset.x as u32,
                top: c.img_offset.y as u32,
                front: c.img_offset.z as u32,
                right: c.img_offset.x as u32 + c.copy_extent.width,
                bottom: c.img_offset.y as u32 + c.copy_extent.height,
                back: c.img_offset.z as u32 + c.copy_extent.depth,
            };
            record(
                &mut self.commands,
                NativeCommand::CopyTextureRegion {
                    dst: CopyLocation::Footprint {
                        resource: buffer.resource,
                        offset: c.footprint_offset,
                        format: image.format,
                        width: c.footprint.width,
                        height: c.footprint.height,
                        depth: c.footprint.depth,
                        row_pitch: c.row_pitch,
                    },
                    dst_x: c.buf_offset.x as u32,
                    dst_y: c.buf_offset.y as u32,
                    dst_z: c.buf_offset.z as u32,
                    src: CopyLocation::Subresource { resource: image.resource, index: c.img_subresource },
                    src_box,
                },
            );
            proof {
                assert(all.take(k + 1).map_values(|c: FootprintCopy| to_buffer_op(*buffer, *image, c))
                    =~= all.take(k as int).map_values(
                    |c: FootprintCopy| to_buffer_op(*buffer, *image, c),
                ).push(to_buffer_op(*buffer, *image, all[k as int])));
            }
            k = k + 1;
        }
        proof {
            assert(all.take(k as int) =~= all);
        }
        self.copies.clear();
        proof {
            assert(self.copies@ =~= old(self).copies@);
        }
    }

    /// Resolves multisampled layers of `src` into `dst`, moving `dst` from
    /// the copy-destination state to the resolve-destination state and back.
    pub fn resolve_image(&mut self, src: &ImageInfo, dst: &ImageInfo, regions: &[ImageResolve])
        requires
            src.wf(),
            dst.wf(),
            forall|j: int|
                0 <= j < regions@.len() ==> {
                    &&& (#[trigger] regions@[j]).src_level < src.levels
                    &&& regions@[j].dst_level < dst.levels
                    &&& regions@[j].src_layer_start + regions@[j].extent.depth <= src.layers
                    &&& regions@[j].dst_layer_start + regions@[j].extent.depth <= dst.layers
                },
        ensures
            final(self).log() == old(self).log() + seq![
                single_transition(
                    dst.resource,
                    crate::native::STATE_COPY_DEST,
                    crate::native::STATE_RESOLVE_DEST,
                ),
            ] + resolves(*src, *dst, regions@, regions@.len() as int) + seq![
                single_transition(
                    dst.resource,
                    crate::native::STATE_RESOLVE_DEST,
                    crate::native::STATE_COPY_DEST,
                ),
            ],
            same_state(*old(self), *final(self)),
    {
        let ghost log0 = self.log();
        record(
            &mut self.commands,
            NativeCommand::ResourceBarriers {
                barriers: one_barrier(
                    ResourceBarrier::transition(
                        dst.resource,
                        ALL_SUBRESOURCES,
                        crate::native::STATE_COPY_DEST,
                        crate::native::STATE_RESOLVE_DEST,
                    ),
                ),
            },
        );
        let ghost log1 = self.log();
        let mut j: usize = 0;
        while j < regions.len()
            invariant
                src.wf(),
                dst.wf(),
                forall|k: int|
                    0 <= k < regions@.len() ==> {
                        &&& (#[trigger] regions@[k]).src_level < src.levels
                        &&& regions@[k].dst_level < dst.levels
                        &&& regions@[k].src_layer_start + regions@[k].extent.depth <= src.layers
                        &&& regions@[k].dst_layer_start + regions@[k].extent.depth <= dst.layers
                    },
                0 <= j <= regions@.len(),
                same_state(*old(self), *self),
                self.log() == log1 + resolves(*src, *dst, regions@, j as int),
            decreases regions@.len() - j,
        {
            let r = regions[j];
            let ghost mid = self.log();
            let mut layer: u32 = 0;
            while layer < r.extent.depth
                invariant
                    src.wf(),
                    dst.wf(),
                    r.src_level < src.levels,
                    r.dst_level < dst.levels,
                    r.src_layer_start + r.extent.depth <= src.layers,
                    r.dst_layer_start + r.extent.depth <= dst.layers,
                    0 <= layer <= r.extent.depth,
                    same_state(*old(self), *self),
                    self.log() == mid + resolve_layers(*src, *dst, r, layer as int),
                decreases r.extent.depth - layer,
            {
                let src_sub = src.calc_subresource(r.src_level, r.src_layer_start + layer);
                let dst_sub = dst.calc_subresource(r.dst_level, r.dst_layer_start + layer);
                record(
                    &mut self.commands,
                    NativeCommand::ResolveSubresource {
                        src: src.resource,
                        src_subresource: src_sub,
                        dst: dst.resource,
                        dst_subresource: dst_sub,
                        format: src.format,
                    },
                );
                layer = layer + 1;
            }
            proof {
                assert(self.log() =~= log1 + resolves(*src, *dst, regions@, j + 1));
            }
            j = j + 1;
        }
        record(
            &mut self.commands,
            NativeCommand::ResourceBarriers {
                barriers: one_barrier(
                    ResourceBarrier::transition(
                        dst.resource,
                        ALL_SUBRESOURCES,
                        crate::native::STATE_RESOLVE_DEST,
                        crate::native::STATE_COPY_DEST,
                    ),
                ),
            },
        );
        proof {
            assert(self.log() =~= log0 + seq![
                single_transition(
                    dst.resource,
                    crate::native::STATE_COPY_DEST,
                    crate::native::STATE_RESOLVE_DEST,
                ),
            ] + resolves(*src, *dst, regions@, regions@.len() as int) + seq![
                single_transition(
                    dst.resource,
                    crate::native::STATE_RESOLVE_DEST,
                    crate::native::STATE_COPY_DEST,
                ),
            ]);
        }
    }

    /// Clears the whole color image through its clear view.
    pub fn clear_color_image_raw(&mut self, image: &ImageInfo, range: SubresourceRange, value: ClearValueRaw)
        requires
            range.is_whole(*image),
            range.aspects == (Aspects { color: true, depth: false, stencil: false }),
            image.clear_color_view is Some,
        ensures
            final(self).log() == old(self).log().push(
                NativeOp::ClearRenderTargetView {
                    view: image.clear_color_view->0,
                    color: value,
                    rects: Seq::empty(),
                },
            ),
            same_state(*old(self), *final(self)),
    {
        let rtv = image.clear_color_view.unwrap();
        let rects: Vec<NativeRect> = Vec::new();
        clear_render_target_view(&mut self.commands, rtv, value, rects);
    }

    /// Clears the whole depth and/or stencil of an image through its clear
    /// views: depth first where the range has the depth aspect, then stencil.
    pub fn clear_depth_stencil_image_raw(
        &mut self,
        image: &ImageInfo,
        range: SubresourceRange,
        depth: u32,
        stencil: u32,
    )
        requires
            !range.aspects.color,
            range.is_whole(*image),
            range.aspects.depth ==> image.clear_depth_view is Some,
            range.aspects.stencil ==> image.clear_stencil_view is Some,
        ensures
            final(self).log() == old(self).log() + (if range.aspects.depth {
                seq![
                    NativeOp::ClearDepthStencilView {
                        view: image.clear_depth_view->0,
                        depth: Some(depth),
                        stencil: None,
                        rects: Seq::empty(),
                    },
                ]
            } else {
                Seq::empty()
            }) + (if range.aspects.stencil {
                seq![
                    NativeOp::ClearDepthStencilView {
                        view: image.clear_stencil_view->0,
                        depth: None,
                        stencil: Some(stencil),
                        rects: Seq::empty(),
                    },
                ]
            } else {
                Seq::empty()
            }),
            same_state(*old(self), *final(self)),
    {
        let ghost log0 = self.log();
        if range.aspects.depth {
            let dsv = image.clear_depth_view.unwrap();
            clear_depth_stencil_view(&mut self.commands, dsv, Some(depth), None, Vec::new());
        }
        let ghost log1 = self.log();
        if range.aspects.stencil {
            let dsv = image.clear_stencil_view.unwrap();
            clear_depth_stencil_view(&mut self.commands, dsv, None, Some(stencil), Vec::new());
        }
        proof {
            assert(self.log() =~= log0 + (if range.aspects.depth {
                seq![
                    NativeOp::ClearDepthStencilView {
                        view: image.clear_depth_view->0,
                        depth: Some(depth),
                        stencil: None,
                        rects: Seq::empty(),
                    },
                ]
            } else {
                Seq::empty()
            }) + (if range.aspects.stencil {
                seq![
                    NativeOp::ClearDepthStencilView {
                        view: image.clear_stencil_view->0,
                        depth: None,
                        stencil: Some(stencil),
                        rects: Seq::empty(),
                    },
                ]
            } else {
                Seq::empty()
            }));
        }
    }

    /// Clears color attachments of the current subpass over `rects`, one
    /// render-target clear per entry of `clears`.
    pub fn clear_attachments(&mut self, clears: &[AttachmentClearCmd], rects: &[Rect])
        requires
            old(self).wf(),
            old(self).pass_cache is Some,
            forall|j: int|
                0 <= j < clears@.len() ==> {
                    &&& (#[trigger] clears@[j]) is Color
                    &&& clears@[j]->Color_index < old(self).pass_cache->0.render_pass.subpasses@[old(
                        self,
                    ).cur_subpass as int].color_attachments@.len()
                },
        ensures
            final(self).log() == old(self).log() + Seq::new(
                clears@.len(),
                |j: int|
                    NativeOp::ClearRenderTargetView {
                        view: color_views(old(self).pass_cache->0, old(self).cur_subpass as int)[clears@[j]->Color_index as int],
                        color: clears@[j]->Color_value,
                        rects: rects@.map_values(|r: Rect| rect_of(r)),
                    },
            ),
            same_state(*old(self), *final(self)),
    {
        let ghost log0 = self.log();
        let ghost c = self.pass_cache->0;
        let ghost s = self.cur_subpass as int;
        let mut native: Vec<NativeRect> = Vec::new();
        let mut i: usize = 0;
        while i < rects.len()
            invariant
                0 <= i <= rects@.len(),
                native@ == rects@.map_values(|r: Rect| rect_of(r)).take(i as int),
            decreases rects@.len() - i,
        {
            native.push(get_rect(&rects[i]));
            proof {
                assert(native@ =~= rects@.map_values(|r: Rect| rect_of(r)).take(i + 1));
            }
            i = i + 1;
        }
        proof {
            assert(native@ =~= rects@.map_values(|r: Rect| rect_of(r)));
        }
        let mut j: usize = 0;
        while j < clears.len()
            invariant
                self.wf(),
                self.pass_cache == Some(c),
                self.cur_subpass == s,
                same_state(*old(self), *self),
                native@ == rects@.map_values(|r: Rect| rect_of(r)),
                forall|k: int|
                    0 <= k < clears@.len() ==> {
                        &&& (#[trigger] clears@[k]) is Color
                        &&& clears@[k]->Color_index < c.render_pass.subpasses@[s].color_attachments@.len()
                    },
                0 <= j <= clears@.len(),
                self.log() == log0 + Seq::new(
                    j as nat,
                    |k: int|
                        NativeOp::ClearRenderTargetView {
                            view: color_views(c, s)[clears@[k]->Color_index as int],
                            color: clears@[k]->Color_value,
                            rects: rects@.map_values(|r: Rect| rect_of(r)),
                        },
                ),
            decreases clears@.len() - j,
        {
            match clears[j] {
                AttachmentClearCmd::Color { index, value } => {
                    let rtv = match &self.pass_cache {
                        Some(state) => {
                            let id = state.render_pass.subpasses[self.cur_subpass].color_attachments[index].id;
                            state.framebuffer.attachments[id].handle_rtv.unwrap()
                        },
                        None => 0,
                    };
                    let copy = copy_rects(&native);
                    clear_render_target_view(&mut self.commands, rtv, value, copy);
                },
                AttachmentClearCmd::DepthStencil { .. } => {},
            }
            proof {
                assert(self.log() =~= log0 + Seq::new(
                    (j + 1) as nat,
                    |k: int|
                        NativeOp::ClearRenderTargetView {
                            view: color_views(c, s)[clears@[k]->Color_index as int],
                            color: clears@[k]->Color_value,
                            rects: rects@.map_values(|r: Rect| rect_of(r)),
                        },
                ));
            }
            j = j + 1;
        }
    }
}

/// A copy of a list of rectangles.
fn copy_rects(v: &Vec<NativeRect>) -> (r: Vec<NativeRect>)
    ensures
        r@ == v@,
{
    let mut r: Vec<NativeRect> = Vec::new();
    let mut i: usize = 0;
    while i < v.len()
        invariant
            0 <= i <= v@.len(),
            r@ == v@.take(i as int),
        decreases v@.len() - i,
    {
        r.push(v[i]);
        proof {
            assert(r@ =~= v@.take(i + 1));
        }
        i = i + 1;
    }
    proof {
        assert(r@ =~= v@);
    }
    r
}

} // verus!

verus! {

/// Query pairing: a tracked query of either type can be ended, naming the
/// native query type it was begun with; once its tracker is cleared it
/// cannot be ended again, and a new `begin_query` of that type is free to
/// track another. `end_query` requires `ending_kind` to be `Some`, so
/// ending a query that does not match the tracked one of its type (or a
/// timestamp) is refused: exactly the inputs listed in the last clause.
pub proof fn lemma_query_pairing(
    q: Query,
    precise: bool,
    occlusion: Option<OcclusionQuery>,
    stats: Option<u32>,
)
    ensures
        q.pool.ty == QueryPoolType::Occlusion ==> {
            &&& ending_kind(
                Some(
                    if precise {
                        OcclusionQuery::Precise(q.id)
                    } else {
                        OcclusionQuery::Binary(q.id)
                    },
                ),
                stats,
                q,
            ) == Some(
                if precise {
                    QueryKind::Occlusion
                } else {
                    QueryKind::BinaryOcclusion
                },
            )
            &&& ending_kind(None, stats, q) is None
        },
        q.pool.ty == QueryPoolType::PipelineStatistics ==> {
            &&& ending_kind(occlusion, Some(q.id), q) == Some(QueryKind::PipelineStatistics)
            &&& ending_kind(occlusion, None, q) is None
        },
        q.pool.ty == QueryPoolType::Timestamp ==> ending_kind(occlusion, stats, q) is None,
        ending_kind(occlusion, stats, q) is None <==> ((q.pool.ty == QueryPoolType::Occlusion
            && occlusion != Some(OcclusionQuery::Binary(q.id)) && occlusion != Some(
            OcclusionQuery::Precise(q.id),
        )) || (q.pool.ty == QueryPoolType::PipelineStatistics && stats != Some(q.id))
            || q.pool.ty == QueryPoolType::Timestamp),
{
}

} // verus!

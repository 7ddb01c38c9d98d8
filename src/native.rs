//! The native command-list model: the commands that recording emits, and
//! their mathematical view.
//!
//! Native objects (resources, descriptor heaps, pipelines, root signatures,
//! descriptor handles) are owned elsewhere and appear here as opaque 64-bit
//! identifiers compared by identity.

use vstd::prelude::*;

verus! {

/// Subresource index that addresses every subresource of a resource.
pub const ALL_SUBRESOURCES: u32 = 0xffff_ffffu32;

/// Native resource state: copy destination.
pub const STATE_COPY_DEST: u32 = 0x400u32;

/// Native resource state: resolve destination.
pub const STATE_RESOLVE_DEST: u32 = 0x1000u32;

/// Native resource state: unordered access.
pub const STATE_UNORDERED_ACCESS: u32 = 0x8u32;

/// The two pipeline bind points, which share one native pipeline slot.
#[derive(Debug, Clone, Copy, PartialEq, Eq, Structural)]
pub enum BindPoint {
    Compute,
    Graphics,
}

/// A native rectangle, edges inclusive on the left/top and exclusive on
/// the right/bottom.
#[derive(Debug, Clone, Copy, PartialEq, Eq, Structural)]
pub struct NativeRect {
    pub left: i32,
    pub top: i32,
    pub right: i32,
    pub bottom: i32,
}

/// A rectangle of the portable API: origin and size.
#[derive(Debug, Clone, Copy, PartialEq, Eq, Structural)]
pub struct Rect {
    pub x: i16,
    pub y: i16,
    pub w: i16,
    pub h: i16,
}

/// A viewport: its rectangle and its depth range. The depth bounds are
/// floating-point values carried as their bit patterns; recording never
/// interprets them, and the rectangle becomes floating point only where
/// the command list is submitted.
#[derive(Debug, Clone, Copy, PartialEq, Eq, Structural)]
pub struct NativeViewport {
    pub rect: Rect,
    pub min_depth: u32,
    pub max_depth: u32,
}

/// The native rectangle of `r`.
pub open spec fn rect_of(r: Rect) -> NativeRect {
    NativeRect {
        left: r.x as i32,
        top: r.y as i32,
        right: (r.x + r.w) as i32,
        bottom: (r.y + r.h) as i32,
    }
}

/// Converts a portable rectangle into its native edges.
pub fn get_rect(r: &Rect) -> (n: NativeRect)
    ensures
        n == rect_of(*r),
{
    NativeRect {
        left: r.x as i32,
        top: r.y as i32,
        right: r.x as i32 + r.w as i32,
        bottom: r.y as i32 + r.h as i32,
    }
}

/// A cached vertex buffer view; a zero size marks an unbound slot.
#[derive(Debug, Clone, Copy, PartialEq, Eq, Structural)]
pub struct VertexBufferView {
    pub location: u64,
    pub size_in_bytes: u32,
    pub stride_in_bytes: u32,
}

/// A raw clear value: four 32-bit words. A color clear reads all four; a
/// depth/stencil clear reads the depth bits from the first word and the
/// stencil value from the second.
#[derive(Debug, Clone, Copy, PartialEq, Eq, Structural)]
pub struct ClearValueRaw {
    pub w0: u32,
    pub w1: u32,
    pub w2: u32,
    pub w3: u32,
}

/// One native resource barrier.
#[derive(Debug, Clone, Copy, PartialEq, Eq, Structural)]
pub enum ResourceBarrier {
    /// State transition of one subresource (or of all of them).
    Transition { resource: u64, subresource: u32, before: u32, after: u32, flags: u32 },
    /// Unordered-access barrier; `None` is the global barrier.
    Uav { resource: Option<u64> },
    /// Aliasing barrier; `None` on both sides is the global barrier.
    Aliasing { before: Option<u64>, after: Option<u64> },
}

impl ResourceBarrier {
    /// A transition barrier without flags.
    pub fn transition(resource: u64, subresource: u32, before: u32, after: u32) -> (r:
        ResourceBarrier)
        ensures
            r == (ResourceBarrier::Transition { resource, subresource, before, after, flags: 0 }),
    {
        ResourceBarrier::Transition { resource, subresource, before, after, flags: 0 }
    }
}

/// Format of an index buffer.
#[derive(Debug, Clone, Copy, PartialEq, Eq, Structural)]
pub enum IndexFormat {
    R16Uint,
    R32Uint,
}

/// Which pre-built command signature an indirect execution uses.
#[derive(Debug, Clone, Copy, PartialEq, Eq, Structural)]
pub enum IndirectKind {
    Draw,
    DrawIndexed,
    Dispatch,
}

/// Native query types.
#[derive(Debug, Clone, Copy, PartialEq, Eq, Structural)]
pub enum QueryKind {
    Occlusion,
    BinaryOcclusion,
    PipelineStatistics,
    Timestamp,
}

/// Location of one side of a texture copy.
#[derive(Debug, Clone, Copy, PartialEq, Eq, Structural)]
pub enum CopyLocation {
    /// One subresource of an image resource.
    Subresource { resource: u64, index: u32 },
    /// A placed footprint inside a buffer resource.
    Footprint {
        resource: u64,
        offset: u64,
        format: u32,
        width: u32,
        height: u32,
        depth: u32,
        row_pitch: u32,
    },
}

/// A native box: left/top/front inclusive, right/bottom/back exclusive.
#[derive(Debug, Clone, Copy, PartialEq, Eq, Structural)]
pub struct NativeBox {
    pub left: u32,
    pub top: u32,
    pub front: u32,
    pub right: u32,
    pub bottom: u32,
    pub back: u32,
}

/// One recorded native command.
#[derive(Debug, Clone, PartialEq, Eq)]
pub enum NativeCommand {
    Reset,
    Close,
    SetDescriptorHeaps { srv_cbv_uav: u64, sampler: u64 },
    SetRootSignature { bind_point: BindPoint, signature: u64 },
    SetPipelineState { pipeline: u64 },
    SetPrimitiveTopology { topology: u32 },
    SetVertexBuffers { views: Vec<VertexBufferView> },
    SetRootConstants { bind_point: BindPoint, slot: u32, values: Vec<u32> },
    SetRootDescriptorTable { bind_point: BindPoint, slot: u32, gpu: u64 },
    ResourceBarriers { barriers: Vec<ResourceBarrier> },
    SetRenderTargets { color: Vec<u64>, depth_stencil: Option<u64> },
    ClearRenderTargetView { view: u64, color: ClearValueRaw, rects: Vec<NativeRect> },
    ClearDepthStencilView {
        view: u64,
        depth: Option<u32>,
        stencil: Option<u32>,
        rects: Vec<NativeRect>,
    },
    Dispatch { x: u32, y: u32, z: u32 },
    ExecuteIndirect { kind: IndirectKind, count: u32, buffer: u64, offset: u64 },
    CopyTextureRegion {
        dst: CopyLocation,
        dst_x: u32,
        dst_y: u32,
        dst_z: u32,
        src: CopyLocation,
        src_box: NativeBox,
    },
    CopyBufferRegion { dst: u64, dst_offset: u64, src: u64, src_offset: u64, size: u64 },
    DrawInstanced { vertex_count: u32, instance_count: u32, first_vertex: u32, first_instance: u32 },
    DrawIndexedInstanced {
        index_count: u32,
        instance_count: u32,
        first_index: u32,
        base_vertex: i32,
        first_instance: u32,
    },
    BeginQuery { heap: u64, kind: QueryKind, id: u32 },
    EndQuery { heap: u64, kind: QueryKind, id: u32 },
    SetViewports { viewports: Vec<NativeViewport> },
    SetScissorRects { rects: Vec<NativeRect> },
    SetBlendFactor { color: ClearValueRaw },
    SetStencilRef { value: u32 },
    SetIndexBuffer { location: u64, size_in_bytes: u32, format: IndexFormat },
    ResolveSubresource { dst: u64, dst_subresource: u32, src: u64, src_subresource: u32, format: u32 },
    ClearUnorderedAccessViewUint { gpu: u64, cpu: u64, resource: u64, values: [u32; 4] },
}

/// Mathematical view of a native command: lists become sequences.
pub enum NativeOp {
    Reset,
    Close,
    SetDescriptorHeaps { srv_cbv_uav: u64, sampler: u64 },
    SetRootSignature { bind_point: BindPoint, signature: u64 },
    SetPipelineState { pipeline: u64 },
    SetPrimitiveTopology { topology: u32 },
    SetVertexBuffers { views: Seq<VertexBufferView> },
    SetRootConstants { bind_point: BindPoint, slot: u32, values: Seq<u32> },
    SetRootDescriptorTable { bind_point: BindPoint, slot: u32, gpu: u64 },
    ResourceBarriers { barriers: Seq<ResourceBarrier> },
    SetRenderTargets { color: Seq<u64>, depth_stencil: Option<u64> },
    ClearRenderTargetView { view: u64, color: ClearValueRaw, rects: Seq<NativeRect> },
    ClearDepthStencilView {
        view: u64,
        depth: Option<u32>,
        stencil: Option<u32>,
        rects: Seq<NativeRect>,
    },
    Dispatch { x: u32, y: u32, z: u32 },
    ExecuteIndirect { kind: IndirectKind, count: u32, buffer: u64, offset: u64 },
    CopyTextureRegion {
        dst: CopyLocation,
        dst_x: u32,
        dst_y: u32,
        dst_z: u32,
        src: CopyLocation,
        src_box: NativeBox,
    },
    CopyBufferRegion { dst: u64, dst_offset: u64, src: u64, src_offset: u64, size: u64 },
    DrawInstanced { vertex_count: u32, instance_count: u32, first_vertex: u32, first_instance: u32 },
    DrawIndexedInstanced {
        index_count: u32,
        instance_count: u32,
        first_index: u32,
        base_vertex: i32,
        first_instance: u32,
    },
    BeginQuery { heap: u64, kind: QueryKind, id: u32 },
    EndQuery { heap: u64, kind: QueryKind, id: u32 },
    SetViewports { viewports: Seq<NativeViewport> },
    SetScissorRects { rects: Seq<NativeRect> },
    SetBlendFactor { color: ClearValueRaw },
    SetStencilRef { value: u32 },
    SetIndexBuffer { location: u64, size_in_bytes: u32, format: IndexFormat },
    ResolveSubresource { dst: u64, dst_subresource: u32, src: u64, src_subresource: u32, format: u32 },
    ClearUnorderedAccessViewUint { gpu: u64, cpu: u64, resource: u64, values: Seq<u32> },
}

impl View for NativeCommand {
    type V = NativeOp;

    open spec fn view(&self) -> NativeOp {
        match *self {
            NativeCommand::Reset => NativeOp::Reset,
            NativeCommand::Close => NativeOp::Close,
            NativeCommand::SetDescriptorHeaps { srv_cbv_uav, sampler } => NativeOp::SetDescriptorHeaps {
                srv_cbv_uav,
                sampler,
            },
            NativeCommand::SetRootSignature { bind_point, signature } => NativeOp::SetRootSignature {
                bind_point,
                signature,
            },
            NativeCommand::SetPipelineState { pipeline } => NativeOp::SetPipelineState { pipeline },
            NativeCommand::SetPrimitiveTopology { topology } => NativeOp::SetPrimitiveTopology {
                topology,
            },
            NativeCommand::SetVertexBuffers { views } => NativeOp::SetVertexBuffers { views: views@ },
            NativeCommand::SetRootConstants { bind_point, slot, values } => NativeOp::SetRootConstants {
                bind_point,
                slot,
                values: values@,
            },
            NativeCommand::SetRootDescriptorTable { bind_point, slot, gpu } => NativeOp::SetRootDescriptorTable {
                bind_point,
                slot,
                gpu,
            },
            NativeCommand::ResourceBarriers { barriers } => NativeOp::ResourceBarriers {
                barriers: barriers@,
            },
            NativeCommand::SetRenderTargets { color, depth_stencil } => NativeOp::SetRenderTargets {
                color: color@,
                depth_stencil,
            },
            NativeCommand::ClearRenderTargetView { view, color, rects } => NativeOp::ClearRenderTargetView {
                view,
                color,
                rects: rects@,
            },
            NativeCommand::ClearDepthStencilView { view, depth, stencil, rects } => NativeOp::ClearDepthStencilView {
                view,
                depth,
                stencil,
                rects: rects@,
            },
            NativeCommand::Dispatch { x, y, z } => NativeOp::Dispatch { x, y, z },
            NativeCommand::ExecuteIndirect { kind, count, buffer, offset } => NativeOp::ExecuteIndirect {
                kind,
                count,
                buffer,
                offset,
            },
            NativeCommand::CopyTextureRegion { dst, dst_x, dst_y, dst_z, src, src_box } => NativeOp::CopyTextureRegion {
                dst,
                dst_x,
                dst_y,
                dst_z,
                src,
                src_box,
            },
            NativeCommand::CopyBufferRegion { dst, dst_offset, src, src_offset, size } => NativeOp::CopyBufferRegion {
                dst,
                dst_offset,
                src,
                src_offset,
                size,
            },
            NativeCommand::DrawInstanced {
                vertex_count,
                instance_count,
                first_vertex,
                first_instance,
            } => NativeOp::DrawInstanced { vertex_count, instance_count, first_vertex, first_instance },
            NativeCommand::DrawIndexedInstanced {
                index_count,
                instance_count,
                first_index,
                base_vertex,
                first_instance,
            } => NativeOp::DrawIndexedInstanced {
                index_count,
                instance_count,
                first_index,
                base_vertex,
                first_instance,
            },
            NativeCommand::BeginQuery { heap, kind, id } => NativeOp::BeginQuery { heap, kind, id },
            NativeCommand::EndQuery { heap, kind, id } => NativeOp::EndQuery { heap, kind, id },
            NativeCommand::SetViewports { viewports } => NativeOp::SetViewports {
                viewports: viewports@,
            },
            NativeCommand::SetScissorRects { rects } => NativeOp::SetScissorRects { rects: rects@ },
            NativeCommand::SetBlendFactor { color } => NativeOp::SetBlendFactor { color },
            NativeCommand::SetStencilRef { value } => NativeOp::SetStencilRef { value },
            NativeCommand::SetIndexBuffer { location, size_in_bytes, format } => NativeOp::SetIndexBuffer {
                location,
                size_in_bytes,
                format,
            },
            NativeCommand::ResolveSubresource {
                dst,
                dst_subresource,
                src,
                src_subresource,
                format,
            } => NativeOp::ResolveSubresource { dst, dst_subresource, src, src_subresource, format },
            NativeCommand::ClearUnorderedAccessViewUint { gpu, cpu, resource, values } => NativeOp::ClearUnorderedAccessViewUint {
                gpu,
                cpu,
                resource,
                values: values@,
            },
        }
    }
}

/// The view of a recorded command list.
pub open spec fn ops_of(commands: Seq<NativeCommand>) -> Seq<NativeOp> {
    commands.map_values(|c: NativeCommand| c@)
}

/// Appends `c` to the command list.
pub fn record(commands: &mut Vec<NativeCommand>, c: NativeCommand)
    ensures
        ops_of(final(commands)@) == ops_of(old(commands)@).push(c@),
{
    let ghost before = commands@;
    commands.push(c);
    proof {
        assert(ops_of(commands@) =~= ops_of(before).push(c@));
    }
}

} // verus!

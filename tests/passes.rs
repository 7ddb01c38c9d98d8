use dx12_command::barrier::{Aspects, Barrier, SubresourceRange};
use dx12_command::command::{
    AttachmentClearCmd, Buffer, CommandBuffer, DescriptorPair, GraphicsPipeline, IndexType,
};
use dx12_command::copy::ImageInfo;
use dx12_command::native::{
    ClearValueRaw, IndexFormat, NativeCommand, NativeRect, NativeViewport, Rect, ResourceBarrier,
    VertexBufferView, ALL_SUBRESOURCES,
};
use dx12_command::pass::{
    Attachment, AttachmentRef, BarrierDesc, Framebuffer, FramebufferAttachment, Layout, LoadOp,
    RenderPass, Subpass,
};

fn barrier(attachment_id: usize, before: u32, after: u32) -> BarrierDesc {
    BarrierDesc { attachment_id, before, after, flags: 0 }
}

fn subpass(color: Vec<usize>, pre: Vec<BarrierDesc>) -> Subpass {
    Subpass {
        color_attachments: color
            .into_iter()
            .map(|id| AttachmentRef { id, layout: Layout::ColorAttachmentOptimal })
            .collect(),
        depth_stencil_attachment: None,
        input_attachments: vec![],
        pre_barriers: pre,
    }
}

fn two_subpass_pass() -> (RenderPass, Framebuffer) {
    let rp = RenderPass {
        attachments: vec![
            Attachment { load: LoadOp::Load, stencil_load: LoadOp::DontCare },
            Attachment { load: LoadOp::Clear, stencil_load: LoadOp::DontCare },
        ],
        subpasses: vec![
            subpass(vec![0], vec![barrier(0, 1, 4)]),
            subpass(vec![0, 1], vec![barrier(1, 1, 4)]),
        ],
        post_barriers: vec![barrier(0, 4, 1), barrier(1, 4, 1)],
    };
    let fb = Framebuffer {
        attachments: vec![
            FramebufferAttachment { resource: 100, handle_rtv: Some(10), handle_dsv: None },
            FramebufferAttachment { resource: 101, handle_rtv: Some(11), handle_dsv: None },
        ],
    };
    (rp, fb)
}

const RED: ClearValueRaw = ClearValueRaw { w0: 1, w1: 2, w2: 3, w3: 4 };

#[test]
fn render_pass_inserts_barriers_per_subpass_and_at_end() {
    let (rp, fb) = two_subpass_pass();
    let mut cb = CommandBuffer::new();
    cb.begin_render_pass_raw(rp, fb, Rect { x: 0, y: 0, w: 8, h: 4 }, &[RED]);
    cb.next_subpass();
    cb.end_render_pass();
    let list = cb.as_raw_list();
    let barriers: Vec<&NativeCommand> =
        list.iter().filter(|c| matches!(c, NativeCommand::ResourceBarriers { .. })).collect();
    assert_eq!(barriers.len(), 3);
    assert_eq!(
        list.last(),
        Some(&NativeCommand::ResourceBarriers {
            barriers: vec![
                ResourceBarrier::Transition { resource: 100, subresource: ALL_SUBRESOURCES, before: 4, after: 1, flags: 0 },
                ResourceBarrier::Transition { resource: 101, subresource: ALL_SUBRESOURCES, before: 4, after: 1, flags: 0 },
            ]
        })
    );
    assert!(cb.pass_cache.is_none());
}

#[test]
fn clear_fires_once_at_first_use() {
    let (rp, fb) = two_subpass_pass();
    let mut cb = CommandBuffer::new();
    cb.begin_render_pass_raw(rp, fb, Rect { x: 1, y: 2, w: 8, h: 4 }, &[RED]);
    let clears_after_begin = cb
        .as_raw_list()
        .iter()
        .filter(|c| matches!(c, NativeCommand::ClearRenderTargetView { .. }))
        .count();
    assert_eq!(clears_after_begin, 0);
    cb.next_subpass();
    cb.end_render_pass();
    let list = cb.as_raw_list();
    let clears: Vec<&NativeCommand> =
        list.iter().filter(|c| matches!(c, NativeCommand::ClearRenderTargetView { .. })).collect();
    assert_eq!(
        clears,
        vec![&NativeCommand::ClearRenderTargetView {
            view: 11,
            color: RED,
            rects: vec![NativeRect { left: 1, top: 2, right: 9, bottom: 6 }]
        }]
    );
    assert_eq!(
        list[3],
        NativeCommand::SetRenderTargets { color: vec![10, 11], depth_stencil: None }
    );
}

#[test]
fn begin_render_pass_plans_clears() {
    let (rp, fb) = two_subpass_pass();
    let mut cb = CommandBuffer::new();
    cb.begin_render_pass_raw(rp, fb, Rect { x: 0, y: 0, w: 8, h: 4 }, &[RED]);
    let cache = cb.pass_cache.as_ref().unwrap();
    assert_eq!(cache.attachment_clears[0].subpass_id, Some(0));
    assert_eq!(cache.attachment_clears[0].value, None);
    assert_eq!(cache.attachment_clears[1].subpass_id, Some(1));
    assert_eq!(cache.attachment_clears[1].value, Some(RED));
    assert_eq!(cache.attachment_clears[1].stencil_value, None);
    assert_eq!(cb.cur_subpass, 0);
}

#[test]
fn clear_attachments_clears_current_color_targets() {
    let (rp, fb) = two_subpass_pass();
    let mut cb = CommandBuffer::new();
    cb.begin_render_pass_raw(rp, fb, Rect { x: 0, y: 0, w: 8, h: 4 }, &[RED]);
    cb.next_subpass();
    cb.clear_attachments(
        &[AttachmentClearCmd::Color { index: 1, value: RED }],
        &[Rect { x: 0, y: 0, w: 2, h: 2 }],
    );
    assert_eq!(
        cb.as_raw_list().last(),
        Some(&NativeCommand::ClearRenderTargetView {
            view: 11,
            color: RED,
            rects: vec![NativeRect { left: 0, top: 0, right: 2, bottom: 2 }]
        })
    );
}

fn image() -> ImageInfo {
    ImageInfo {
        resource: 77,
        block_width: 1,
        block_height: 1,
        bytes_per_block: 4,
        levels: 2,
        layers: 3,
        format: 28,
        clear_color_view: Some(5),
        clear_depth_view: Some(6),
        clear_stencil_view: Some(7),
    }
}

#[test]
fn pipeline_barrier_translates_and_appends_global_barriers() {
    let img = image();
    let color = Aspects { color: true, depth: false, stencil: false };
    let mut cb = CommandBuffer::new();
    cb.pipeline_barrier(&[
        Barrier::Buffer { resource: 3, before: 8, after: 8 },
        Barrier::Buffer { resource: 3, before: 8, after: 0x400 },
        Barrier::Image {
            target: img,
            range: SubresourceRange { aspects: color, level_start: 1, level_end: 2, layer_start: 1, layer_end: 3 },
            before: 1,
            after: 2,
        },
        Barrier::Image {
            target: img,
            range: SubresourceRange { aspects: color, level_start: 0, level_end: 2, layer_start: 0, layer_end: 3 },
            before: 2,
            after: 1,
        },
        Barrier::AllImages,
    ]);
    let t = |resource, subresource, before, after| ResourceBarrier::Transition {
        resource,
        subresource,
        before,
        after,
        flags: 0,
    };
    assert_eq!(
        cb.as_raw_list(),
        &vec![NativeCommand::ResourceBarriers {
            barriers: vec![
                t(3, ALL_SUBRESOURCES, 8, 0x400),
                t(77, 1 + 2, 1, 2),
                t(77, 1 + 2 * 2, 1, 2),
                t(77, ALL_SUBRESOURCES, 2, 1),
                ResourceBarrier::Uav { resource: None },
                ResourceBarrier::Uav { resource: None },
                ResourceBarrier::Aliasing { before: None, after: None },
            ]
        }]
    );
}

#[test]
fn empty_barrier_call_still_records_global_barriers() {
    let mut cb = CommandBuffer::new();
    cb.pipeline_barrier(&[]);
    assert_eq!(
        cb.as_raw_list(),
        &vec![NativeCommand::ResourceBarriers {
            barriers: vec![
                ResourceBarrier::Uav { resource: None },
                ResourceBarrier::Aliasing { before: None, after: None },
            ]
        }]
    );
}

fn viewport(x: i16) -> NativeViewport {
    NativeViewport { rect: Rect { x, y: 0, w: 10, h: 10 }, min_depth: 0, max_depth: 0x3f80_0000 }
}

#[test]
fn viewports_merge_into_the_cache() {
    let mut cb = CommandBuffer::new();
    cb.set_viewports(0, &[viewport(1), viewport(2)]);
    cb.set_viewports(1, &[viewport(3)]);
    assert_eq!(
        cb.as_raw_list().last(),
        Some(&NativeCommand::SetViewports { viewports: vec![viewport(1), viewport(3)] })
    );
}

#[test]
fn scissors_past_the_end_are_appended() {
    let mut cb = CommandBuffer::new();
    cb.set_scissors(3, &[Rect { x: 1, y: 1, w: 2, h: 3 }]);
    cb.set_scissors(0, &[Rect { x: 0, y: 0, w: 5, h: 5 }, Rect { x: 2, y: 2, w: 1, h: 1 }]);
    assert_eq!(
        cb.as_raw_list().last(),
        Some(&NativeCommand::SetScissorRects {
            rects: vec![
                NativeRect { left: 0, top: 0, right: 5, bottom: 5 },
                NativeRect { left: 2, top: 2, right: 3, bottom: 3 },
            ]
        })
    );
}

fn graphics_pipeline(signature: u64) -> GraphicsPipeline {
    GraphicsPipeline {
        raw: 40,
        signature,
        num_parameter_slots: 0,
        constants: vec![],
        topology: 4,
        vertex_strides: vec![12, 16],
        baked_viewport: Some(viewport(7)),
        baked_scissor: None,
        baked_blend_color: Some(RED),
    }
}

#[test]
fn graphics_pipeline_applies_baked_state_and_strides() {
    let mut cb = CommandBuffer::new();
    cb.bind_graphics_pipeline(&graphics_pipeline(30));
    assert_eq!(
        cb.as_raw_list(),
        &vec![
            NativeCommand::SetRootSignature { bind_point: dx12_command::native::BindPoint::Graphics, signature: 30 },
            NativeCommand::SetPipelineState { pipeline: 40 },
            NativeCommand::SetPrimitiveTopology { topology: 4 },
            NativeCommand::SetViewports { viewports: vec![viewport(7)] },
            NativeCommand::SetBlendFactor { color: RED },
        ]
    );
    assert_eq!(cb.vertex_buffer_views[1].stride_in_bytes, 16);
    assert_eq!(cb.vertex_buffer_views[2].stride_in_bytes, 0);
}

#[test]
fn draw_binds_vertex_buffers_up_to_the_first_empty_slot() {
    let mut cb = CommandBuffer::new();
    cb.bind_graphics_pipeline(&graphics_pipeline(30));
    let buffer = Buffer { resource: 1, gpu_address: 0x1000, size_in_bytes: 256, clear_uav: None };
    cb.bind_vertex_buffers(&[(buffer, 16), (buffer, 64)]);
    let before = cb.as_raw_list().len();
    cb.draw(3..9, 0..2);
    assert_eq!(
        cb.as_raw_list()[before..].to_vec(),
        vec![
            NativeCommand::SetVertexBuffers {
                views: vec![
                    VertexBufferView { location: 0x1010, size_in_bytes: 240, stride_in_bytes: 12 },
                    VertexBufferView { location: 0x1040, size_in_bytes: 192, stride_in_bytes: 16 },
                ]
            },
            NativeCommand::DrawInstanced { vertex_count: 6, instance_count: 2, first_vertex: 3, first_instance: 0 },
        ]
    );
}

#[test]
fn index_buffer_view_starts_at_offset() {
    let mut cb = CommandBuffer::new();
    let buffer = Buffer { resource: 1, gpu_address: 0x2000, size_in_bytes: 100, clear_uav: None };
    cb.bind_index_buffer(&buffer, 20, IndexType::U16);
    assert_eq!(
        cb.as_raw_list(),
        &vec![NativeCommand::SetIndexBuffer { location: 0x2014, size_in_bytes: 80, format: IndexFormat::R16Uint }]
    );
}

#[test]
fn fill_buffer_clears_between_transitions() {
    let mut cb = CommandBuffer::new();
    let buffer = Buffer {
        resource: 1,
        gpu_address: 0,
        size_in_bytes: 64,
        clear_uav: Some(DescriptorPair { gpu: 90, cpu: 91 }),
    };
    cb.fill_buffer(&buffer, 0..64, 0xabcd);
    let list = cb.as_raw_list();
    assert_eq!(list.len(), 3);
    assert_eq!(
        list[1],
        NativeCommand::ClearUnorderedAccessViewUint { gpu: 90, cpu: 91, resource: 1, values: [0xabcd; 4] }
    );
    assert_eq!(
        list[0],
        NativeCommand::ResourceBarriers {
            barriers: vec![ResourceBarrier::Transition {
                resource: 1,
                subresource: ALL_SUBRESOURCES,
                before: 0x400,
                after: 0x8,
                flags: 0
            }]
        }
    );
}

#[test]
fn depth_stencil_image_clear_uses_both_views() {
    let img = image();
    let mut cb = CommandBuffer::new();
    let range = SubresourceRange {
        aspects: Aspects { color: false, depth: true, stencil: true },
        level_start: 0,
        level_end: 2,
        layer_start: 0,
        layer_end: 3,
    };
    cb.clear_depth_stencil_image_raw(&img, range, 0x3f80_0000, 9);
    assert_eq!(
        cb.as_raw_list(),
        &vec![
            NativeCommand::ClearDepthStencilView { view: 6, depth: Some(0x3f80_0000), stencil: None, rects: vec![] },
            NativeCommand::ClearDepthStencilView { view: 7, depth: None, stencil: Some(9), rects: vec![] },
        ]
    );
    let color = SubresourceRange { aspects: Aspects { color: true, depth: false, stencil: false }, ..range };
    cb.clear_color_image_raw(&img, color, RED);
    assert_eq!(
        cb.as_raw_list().last(),
        Some(&NativeCommand::ClearRenderTargetView { view: 5, color: RED, rects: vec![] })
    );
}

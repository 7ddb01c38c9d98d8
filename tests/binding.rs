use dx12_command::command::{
    Buffer, CommandBuffer, ComputePipeline, OcclusionQuery, Query, QueryPool, QueryPoolType,
};
use dx12_command::native::{BindPoint, NativeCommand, QueryKind};
use dx12_command::pipeline::{
    bind_descriptor_sets, flush_user_data, push_constants, DescriptorSet, PipelineCache,
    PipelineLayout, RootConstant, SetTables,
};
use dx12_command::root::{div, RootElement, UserData, ROOT_SIGNATURE_SIZE};

fn dirty(u: &UserData, i: usize) -> bool {
    (u.dirty_mask >> i) & 1 == 1
}

fn set(view: Option<u64>, sampler: Option<u64>) -> DescriptorSet {
    DescriptorSet {
        heap_srv_cbv_uav: 11,
        heap_samplers: 12,
        srv_cbv_uav_gpu_start: 0x1000,
        sampler_gpu_start: 0x8000,
        first_gpu_view: view,
        first_gpu_sampler: sampler,
    }
}

fn table_layout(tables: Vec<SetTables>, constants: Vec<RootConstant>) -> PipelineLayout {
    PipelineLayout { tables, root_constants: constants }
}

#[test]
fn new_user_data_is_undefined_and_clean() {
    let u = UserData::new();
    assert_eq!(u.dirty_mask, 0);
    for i in 0..ROOT_SIGNATURE_SIZE {
        assert_eq!(u.data[i], RootElement::Undefined);
    }
}

#[test]
fn set_constants_writes_and_marks_each_register() {
    let mut u = UserData::new();
    u.set_constants(2, &[7, 8]);
    assert_eq!(u.data[2], RootElement::Constant(7));
    assert_eq!(u.data[3], RootElement::Constant(8));
    assert_eq!(u.data[4], RootElement::Undefined);
    assert_eq!(u.dirty_mask, 0b1100);
}

#[test]
fn set_constants_up_to_the_last_register() {
    let mut u = UserData::new();
    u.set_constants(62, &[1, 2]);
    assert_eq!(u.data[63], RootElement::Constant(2));
    assert_eq!(u.dirty_mask, 0b11 << 62);
}

#[test]
fn table_setters_tag_and_mark() {
    let mut u = UserData::new();
    u.set_srv_cbv_uav_table(5, 40);
    u.set_sampler_table(6, 8);
    assert_eq!(u.data[5], RootElement::TableSrvCbvUav(40));
    assert_eq!(u.data[6], RootElement::TableSampler(8));
    assert_eq!(u.dirty_mask, 0b110_0000);
    u.clear_dirty(5);
    assert_eq!(u.dirty_mask, 0b100_0000);
    assert_eq!(u.data[5], RootElement::TableSrvCbvUav(40));
}

#[test]
fn div_is_exact_division() {
    assert_eq!(div(12, 4), 3);
    assert_eq!(div(0, 7), 0);
    assert_eq!(div(256, 1), 256);
}

#[test]
fn two_sets_mark_three_registers() {
    let layout = table_layout(
        vec![
            SetTables { srv_cbv_uav: true, samplers: false },
            SetTables { srv_cbv_uav: true, samplers: true },
        ],
        vec![],
    );
    let sets = [set(Some(0x1020), None), set(Some(0x1040), Some(0x8010))];
    let mut cb = CommandBuffer::new();
    cb.bind_compute_descriptor_sets(&layout, 0, &sets);
    let u = &cb.comp_pipeline.user_data;
    assert_eq!(u.dirty_mask, 0b111);
    assert_eq!(u.data[0], RootElement::TableSrvCbvUav(0x20));
    assert_eq!(u.data[1], RootElement::TableSrvCbvUav(0x40));
    assert_eq!(u.data[2], RootElement::TableSampler(0x10));
    assert_eq!(
        cb.as_raw_list(),
        &vec![NativeCommand::SetDescriptorHeaps { srv_cbv_uav: 11, sampler: 12 }]
    );
    assert_eq!(cb.comp_pipeline.srv_cbv_uav_start, 0x1000);
    assert_eq!(cb.comp_pipeline.sampler_start, 0x8000);
}

#[test]
fn sets_after_constants_and_earlier_sets_go_higher() {
    let layout = table_layout(
        vec![
            SetTables { srv_cbv_uav: true, samplers: true },
            SetTables { srv_cbv_uav: false, samplers: true },
        ],
        vec![RootConstant { start: 0, end: 3 }],
    );
    let mut pc = PipelineCache::new();
    let mut commands = Vec::new();
    bind_descriptor_sets(&mut commands, &mut pc, &layout, 1, &[set(None, Some(0x8030))]);
    assert_eq!(pc.user_data.data[5], RootElement::TableSampler(0x30));
    assert_eq!(pc.user_data.dirty_mask, 1 << 5);
}

#[test]
fn binding_no_set_does_nothing() {
    let layout = table_layout(vec![SetTables { srv_cbv_uav: true, samplers: false }], vec![]);
    let mut pc = PipelineCache::new();
    let mut commands = Vec::new();
    bind_descriptor_sets(&mut commands, &mut pc, &layout, 0, &[]);
    assert!(commands.is_empty());
    assert_eq!(pc.user_data.dirty_mask, 0);
}

#[test]
fn push_constants_writes_ranges_starting_inside_the_push() {
    let layout = table_layout(vec![], vec![RootConstant { start: 0, end: 2 }, RootConstant { start: 8, end: 9 }]);
    let mut u = UserData::new();
    push_constants(&mut u, &layout, 0, &[5, 6, 7]);
    assert_eq!(u.data[0], RootElement::Constant(5));
    assert_eq!(u.data[1], RootElement::Constant(6));
    assert_eq!(u.data[2], RootElement::Undefined);
    assert_eq!(u.dirty_mask, 0b11);
}

fn compute_pipeline(raw: u64, signature: u64) -> ComputePipeline {
    ComputePipeline {
        raw,
        signature,
        num_parameter_slots: 2,
        constants: vec![RootConstant { start: 0, end: 2 }],
    }
}

#[test]
fn flush_passes_each_written_register_once() {
    let layout = table_layout(
        vec![SetTables { srv_cbv_uav: true, samplers: false }],
        vec![RootConstant { start: 0, end: 2 }],
    );
    let mut cb = CommandBuffer::new();
    cb.bind_compute_pipeline(&compute_pipeline(100, 200));
    cb.push_compute_constants(&layout, 0, &[5, 6]);
    cb.bind_compute_descriptor_sets(&layout, 0, &[set(Some(0x1020), None)]);
    let before = cb.as_raw_list().len();
    cb.dispatch([1, 2, 3]);
    let tail = cb.as_raw_list()[before..].to_vec();
    assert_eq!(
        tail,
        vec![
            NativeCommand::SetRootConstants { bind_point: BindPoint::Compute, slot: 0, values: vec![5, 6] },
            NativeCommand::SetRootDescriptorTable { bind_point: BindPoint::Compute, slot: 1, gpu: 0x1020 },
            NativeCommand::Dispatch { x: 1, y: 2, z: 3 },
        ]
    );
    assert!(!dirty(&cb.comp_pipeline.user_data, 0));
    assert!(!dirty(&cb.comp_pipeline.user_data, 1));
    assert!(!dirty(&cb.comp_pipeline.user_data, 2));
    // Nothing was written since: the next dispatch flushes nothing.
    let before = cb.as_raw_list().len();
    cb.dispatch([4, 4, 4]);
    assert_eq!(cb.as_raw_list()[before..].to_vec(), vec![NativeCommand::Dispatch { x: 4, y: 4, z: 4 }]);
    assert_eq!(cb.comp_pipeline.user_data.dirty_mask, 0);
}

#[test]
fn flush_with_nothing_dirty_records_nothing() {
    let mut pc = PipelineCache::new();
    pc.num_parameter_slots = 1;
    pc.root_constants = vec![RootConstant { start: 0, end: 1 }];
    let mut commands = Vec::new();
    flush_user_data(&mut pc, BindPoint::Compute, &mut commands);
    assert!(commands.is_empty());
}

#[test]
fn flush_substitutes_zero_for_unset_constants() {
    let mut pc = PipelineCache::new();
    pc.num_parameter_slots = 1;
    pc.root_constants = vec![RootConstant { start: 0, end: 2 }];
    pc.user_data.set_constants(1, &[9]);
    let mut commands = Vec::new();
    flush_user_data(&mut pc, BindPoint::Compute, &mut commands);
    assert_eq!(
        commands,
        vec![NativeCommand::SetRootConstants { bind_point: BindPoint::Compute, slot: 0, values: vec![0, 9] }]
    );
    assert_eq!(pc.user_data.dirty_mask, 0);
}

#[test]
fn flush_leaves_no_register_dirty() {
    let mut pc = PipelineCache::new();
    pc.num_parameter_slots = 2;
    pc.root_constants = vec![RootConstant { start: 0, end: 1 }];
    pc.user_data.mark_all_dirty();
    let mut commands = Vec::new();
    flush_user_data(&mut pc, BindPoint::Graphics, &mut commands);
    assert_eq!(pc.user_data.dirty_mask, 0);
    let mut again = Vec::new();
    flush_user_data(&mut pc, BindPoint::Graphics, &mut again);
    assert!(again.is_empty());
}

#[test]
fn flush_skips_clean_table_slots() {
    let mut pc = PipelineCache::new();
    pc.num_parameter_slots = 2;
    pc.user_data.set_srv_cbv_uav_table(1, 4);
    pc.srv_cbv_uav_start = 0x100;
    let mut commands = Vec::new();
    flush_user_data(&mut pc, BindPoint::Graphics, &mut commands);
    assert_eq!(
        commands,
        vec![NativeCommand::SetRootDescriptorTable { bind_point: BindPoint::Graphics, slot: 1, gpu: 0x104 }]
    );
    assert_eq!(pc.user_data.dirty_mask, 0);
}

#[test]
fn same_signature_keeps_dirty_bits_new_signature_marks_all() {
    let mut cb = CommandBuffer::new();
    cb.bind_compute_pipeline(&compute_pipeline(100, 200));
    cb.dispatch([1, 1, 1]);
    assert_eq!(cb.comp_pipeline.user_data.dirty_mask, 0);
    let mask = cb.comp_pipeline.user_data.dirty_mask;
    let before = cb.as_raw_list().len();
    cb.bind_compute_pipeline(&compute_pipeline(101, 200));
    assert_eq!(cb.comp_pipeline.user_data.dirty_mask, mask);
    assert_eq!(cb.as_raw_list()[before..].to_vec(), vec![NativeCommand::SetPipelineState { pipeline: 101 }]);
    cb.bind_compute_pipeline(&compute_pipeline(102, 300));
    assert_eq!(cb.comp_pipeline.user_data.dirty_mask, u64::MAX);
    assert_eq!(cb.comp_pipeline.pipeline, Some((102, 300)));
}

#[test]
fn switching_bind_points_rebinds_the_pipeline() {
    let mut cb = CommandBuffer::new();
    cb.bind_compute_pipeline(&compute_pipeline(100, 200));
    cb.active_bindpoint = BindPoint::Graphics;
    let before = cb.as_raw_list().len();
    cb.dispatch([1, 1, 1]);
    assert_eq!(cb.as_raw_list()[before], NativeCommand::SetPipelineState { pipeline: 100 });
    assert_eq!(cb.active_bindpoint, BindPoint::Compute);
}

#[test]
fn dispatch_indirect_uses_the_dispatch_signature() {
    let mut cb = CommandBuffer::new();
    cb.bind_compute_pipeline(&compute_pipeline(1, 2));
    let buffer = Buffer { resource: 9, gpu_address: 0, size_in_bytes: 64, clear_uav: None };
    cb.dispatch_indirect(&buffer, 16);
    assert_eq!(
        cb.as_raw_list().last(),
        Some(&NativeCommand::ExecuteIndirect {
            kind: dx12_command::native::IndirectKind::Dispatch,
            count: 1,
            buffer: 9,
            offset: 16
        })
    );
}

fn query(ty: QueryPoolType, id: u32) -> Query {
    Query { pool: QueryPool { heap: 50, ty }, id }
}

#[test]
fn end_query_clears_the_tracker() {
    let mut cb = CommandBuffer::new();
    cb.begin_query(query(QueryPoolType::Occlusion, 3), true);
    assert_eq!(cb.occlusion_query, Some(OcclusionQuery::Precise(3)));
    cb.end_query(query(QueryPoolType::Occlusion, 3));
    assert_eq!(cb.occlusion_query, None);
    assert_eq!(
        cb.as_raw_list().last(),
        Some(&NativeCommand::EndQuery { heap: 50, kind: QueryKind::Occlusion, id: 3 })
    );
    cb.begin_query(query(QueryPoolType::Occlusion, 4), false);
    assert_eq!(cb.occlusion_query, Some(OcclusionQuery::Binary(4)));
    cb.end_query(query(QueryPoolType::Occlusion, 4));
    assert_eq!(
        cb.as_raw_list().last(),
        Some(&NativeCommand::EndQuery { heap: 50, kind: QueryKind::BinaryOcclusion, id: 4 })
    );
}

#[test]
fn statistics_queries_have_their_own_tracker() {
    let mut cb = CommandBuffer::new();
    cb.begin_query(query(QueryPoolType::Occlusion, 1), false);
    cb.begin_query(query(QueryPoolType::PipelineStatistics, 2), false);
    assert_eq!(cb.pipeline_stats_query, Some(2));
    cb.end_query(query(QueryPoolType::PipelineStatistics, 2));
    assert_eq!(cb.pipeline_stats_query, None);
    assert_eq!(cb.occlusion_query, Some(OcclusionQuery::Binary(1)));
}

#[test]
fn timestamps_bypass_the_trackers() {
    let mut cb = CommandBuffer::new();
    cb.write_timestamp(query(QueryPoolType::Timestamp, 7));
    assert_eq!(cb.occlusion_query, None);
    assert_eq!(
        cb.as_raw_list(),
        &vec![NativeCommand::EndQuery { heap: 50, kind: QueryKind::Timestamp, id: 7 }]
    );
}

#[test]
fn reset_forgets_bindings() {
    let mut cb = CommandBuffer::new();
    cb.bind_compute_pipeline(&compute_pipeline(100, 200));
    cb.begin_query(query(QueryPoolType::Occlusion, 1), false);
    cb.reset();
    assert_eq!(cb.comp_pipeline.pipeline, None);
    assert_eq!(cb.comp_pipeline.num_parameter_slots, 0);
    assert!(cb.comp_pipeline.root_constants.is_empty());
    assert_eq!(cb.comp_pipeline.user_data.data[0], RootElement::Undefined);
    assert_eq!(cb.occlusion_query, None);
    assert_eq!(cb.active_bindpoint, BindPoint::Graphics);
    assert_eq!(cb.as_raw_list().last(), Some(&NativeCommand::Reset));
    cb.finish();
    assert_eq!(cb.as_raw_list().last(), Some(&NativeCommand::Close));
}

//! Per-bind-point pipeline cache, descriptor-set binding and the lazy flush
//! of dirty root-signature registers.

use vstd::prelude::*;
use crate::native::{BindPoint, NativeCommand, NativeOp, ops_of, record};
use crate::root::{RootElement, UserData, ROOT_SIGNATURE_SIZE};

verus! {

/// A range of root-constant registers declared by a pipeline layout.
#[derive(Debug, Clone, Copy, PartialEq, Eq, Structural)]
pub struct RootConstant {
    pub start: u32,
    pub end: u32,
}

/// Which descriptor tables a descriptor-set layout declares.
#[derive(Debug, Clone, Copy, PartialEq, Eq, Structural)]
pub struct SetTables {
    pub srv_cbv_uav: bool,
    pub samplers: bool,
}

/// The parts of a pipeline layout that recording reads.
#[derive(Debug, Clone)]
pub struct PipelineLayout {
    /// One entry per descriptor set, in set order.
    pub tables: Vec<SetTables>,
    /// Root-constant ranges, in declaration order.
    pub root_constants: Vec<RootConstant>,
}

/// The parts of a descriptor set that recording reads.
#[derive(Debug, Clone, Copy, PartialEq, Eq, Structural)]
pub struct DescriptorSet {
    pub heap_srv_cbv_uav: u64,
    pub heap_samplers: u64,
    /// GPU base address of the SRV/CBV/UAV heap.
    pub srv_cbv_uav_gpu_start: u64,
    /// GPU base address of the sampler heap.
    pub sampler_gpu_start: u64,
    /// First GPU descriptor of the set's SRV/CBV/UAV table, if any.
    pub first_gpu_view: Option<u64>,
    /// First GPU descriptor of the set's sampler table, if any.
    pub first_gpu_sampler: Option<u64>,
}

/// Number of registers that root-constant ranges `rcs[0..n]` occupy.
pub open spec fn constants_before(rcs: Seq<RootConstant>, n: int) -> int
    decreases n,
{
    if n <= 0 {
        0
    } else {
        constants_before(rcs, n - 1) + (rcs[n - 1].end - rcs[n - 1].start)
    }
}

/// Number of registers that root-constant ranges occupy in all.
pub open spec fn constant_registers(rcs: Seq<RootConstant>) -> int {
    constants_before(rcs, rcs.len() as int)
}

/// Every range is well ordered and all of them fit in the register file.
pub open spec fn constants_wf(rcs: Seq<RootConstant>) -> bool {
    &&& forall|i: int| 0 <= i < rcs.len() ==> #[trigger] rcs[i].start <= rcs[i].end
    &&& constant_registers(rcs) <= ROOT_SIGNATURE_SIZE
}

pub proof fn lemma_constants_before_nonneg(x: Seq<RootConstant>, n: int)
    requires
        n <= x.len(),
        forall|i: int| 0 <= i < x.len() ==> #[trigger] x[i].start <= x[i].end,
    ensures
        0 <= constants_before(x, n),
    decreases n,
{
    if n > 0 {
        lemma_constants_before_nonneg(x, n - 1);
    }
}

pub proof fn lemma_constants_before_mono(x: Seq<RootConstant>, a: int, b: int)
    requires
        0 <= a <= b <= x.len(),
    forall|i: int| 0 <= i < x.len() ==> #[trigger] x[i].start <= x[i].end,
    ensures
        0 <= constants_before(x, a) <= constants_before(x, b),
    decreases b,
{
    if b > a {
        lemma_constants_before_mono(x, a, b - 1);
    } else {
        lemma_constants_before_nonneg(x, a);
    }
}

/// Number of table registers that the set layouts `tables[0..n]` declare.
pub open spec fn tables_before(tables: Seq<SetTables>, n: int) -> int
    decreases n,
{
    if n <= 0 {
        0
    } else {
        tables_before(tables, n - 1) + (if tables[n - 1].srv_cbv_uav {
            1int
        } else {
            0int
        }) + (if tables[n - 1].samplers {
            1int
        } else {
            0int
        })
    }
}

/// Number of tables that the descriptor sets `sets[0..n]` carry.
pub open spec fn set_tables_before(sets: Seq<DescriptorSet>, n: int) -> int
    decreases n,
{
    if n <= 0 {
        0
    } else {
        set_tables_before(sets, n - 1) + (if sets[n - 1].first_gpu_view is Some {
            1int
        } else {
            0int
        }) + (if sets[n - 1].first_gpu_sampler is Some {
            1int
        } else {
            0int
        })
    }
}

/// The table offset stored for a descriptor at `gpu` in a heap based at `base`.
pub open spec fn table_offset(gpu: u64, base: u64) -> u32 {
    (gpu - base) as u32
}

/// The element that binding `sets[0..n]` writes to register `r`, where the
/// first table goes to register `first`; `None` if it writes nothing there.
pub open spec fn bound_element(
    sets: Seq<DescriptorSet>,
    n: int,
    first: int,
    srv_start: u64,
    sampler_start: u64,
    r: int,
) -> Option<RootElement>
    decreases n,
{
    if n <= 0 {
        None
    } else {
        let s = sets[n - 1];
        let at = first + set_tables_before(sets, n - 1);
        let sampler_at = at + if s.first_gpu_view is Some {
            1int
        } else {
            0int
        };
        if s.first_gpu_view is Some && r == at {
            Some(RootElement::TableSrvCbvUav(table_offset(s.first_gpu_view->0, srv_start)))
        } else if s.first_gpu_sampler is Some && r == sampler_at {
            Some(RootElement::TableSampler(table_offset(s.first_gpu_sampler->0, sampler_start)))
        } else {
            bound_element(sets, n - 1, first, srv_start, sampler_start, r)
        }
    }
}

/// Number of (set, set layout) pairs that a bind starting at `first_set` processes.
pub open spec fn bound_count(layout_len: int, first_set: int, sets_len: int) -> int {
    if sets_len < layout_len - first_set {
        sets_len
    } else {
        layout_len - first_set
    }
}

/// What a descriptor-set bind asks of its arguments: each table a set
/// carries is declared by its layout, lies above the heap base of the first
/// set, and its register fits in the register file.
pub open spec fn bind_sets_ok(layout: PipelineLayout, first_set: int, sets: Seq<DescriptorSet>) -> bool {
    let tables = layout.tables@;
    let n = bound_count(tables.len() as int, first_set, sets.len() as int);
    &&& first_set <= tables.len()
    &&& constants_wf(layout.root_constants@)
    &&& sets.len() > 0 ==> forall|k: int|
        0 <= k < n ==> {
            &&& (#[trigger] sets[k]).first_gpu_view is Some ==> tables[first_set + k].srv_cbv_uav
                && sets[0].srv_cbv_uav_gpu_start <= sets[k].first_gpu_view->0
                < sets[0].srv_cbv_uav_gpu_start + 0x1_0000_0000
            &&& sets[k].first_gpu_sampler is Some ==> tables[first_set + k].samplers
                && sets[0].sampler_gpu_start <= sets[k].first_gpu_sampler->0
                < sets[0].sampler_gpu_start + 0x1_0000_0000
        }
    &&& sets.len() > 0 ==> constant_registers(layout.root_constants@) + tables_before(
        tables,
        first_set,
    ) + set_tables_before(sets, n) <= ROOT_SIGNATURE_SIZE
}

/// Per-bind-point cache of the bound pipeline, its root-signature layout
/// and the virtual register file.
#[derive(Debug, Clone)]
pub struct PipelineCache {
    /// Bound pipeline and root signature.
    pub pipeline: Option<(u64, u64)>,
    /// Parameter slots of the current root signature.
    pub num_parameter_slots: usize,
    /// Root-constant ranges of the current root signature.
    pub root_constants: Vec<RootConstant>,
    /// Virtualized root-signature registers.
    pub user_data: UserData,
    /// GPU base address of the SRV/CBV/UAV heap bound last.
    pub srv_cbv_uav_start: u64,
    /// GPU base address of the sampler heap bound last.
    pub sampler_start: u64,
}

impl PipelineCache {
    /// The constant ranges are well ordered and the constants together with
    /// the table slots fit in the register file.
    pub open spec fn wf(&self) -> bool {
        let rcs = self.root_constants@;
        &&& constants_wf(rcs)
        &&& rcs.len() <= self.num_parameter_slots <= ROOT_SIGNATURE_SIZE
        &&& constant_registers(rcs) + (self.num_parameter_slots - rcs.len())
            <= ROOT_SIGNATURE_SIZE
    }

    /// Register that holds table parameter slot `slot`.
    pub open spec fn table_register(&self, slot: int) -> int {
        constant_registers(self.root_constants@) + (slot - self.root_constants@.len())
    }

    /// Nothing bound, no parameter slots or constant ranges, every register
    /// undefined and clean, both heap bases zero.
    pub open spec fn is_empty(&self) -> bool {
        &&& self.pipeline is None
        &&& self.num_parameter_slots == 0
        &&& self.root_constants@.len() == 0
        &&& self.user_data.dirty_mask == 0
        &&& forall|i: int|
            0 <= i < ROOT_SIGNATURE_SIZE ==> #[trigger] self.user_data.data@[i] == RootElement::Undefined
        &&& self.srv_cbv_uav_start == 0
        &&& self.sampler_start == 0
    }

    /// An empty cache: nothing bound, no registers, nothing dirty.
    pub fn new() -> (r: PipelineCache)
        ensures
            r.wf(),
            r.is_empty(),
    {
        let r = PipelineCache {
            pipeline: None,
            num_parameter_slots: 0,
            root_constants: Vec::new(),
            user_data: UserData::new(),
            srv_cbv_uav_start: 0,
            sampler_start: 0,
        };
        proof {
            assert(constant_registers(r.root_constants@) == 0);
        }
        r
    }
}

/// Sums the register counts of the root-constant ranges.
pub fn count_constant_registers(rcs: &Vec<RootConstant>) -> (r: usize)
    requires
        constants_wf(rcs@),
    ensures
        r == constant_registers(rcs@),
{
    let mut sum: usize = 0;
    let mut i: usize = 0;
    while i < rcs.len()
        invariant
            constants_wf(rcs@),
            0 <= i <= rcs@.len(),
            sum == constants_before(rcs@, i as int),
        decreases rcs@.len() - i,
    {
        proof {
            lemma_constants_before_mono(rcs@, i + 1, rcs@.len() as int);
        }
        sum = sum + (rcs[i].end - rcs[i].start) as usize;
        i = i + 1;
    }
    sum
}

pub proof fn lemma_tables_before_nonneg(x: Seq<SetTables>, n: int)
    ensures
        0 <= tables_before(x, n),
    decreases n,
{
    if n > 0 {
        lemma_tables_before_nonneg(x, n - 1);
    }
}

pub proof fn lemma_tables_before_mono(x: Seq<SetTables>, a: int, b: int)
    requires
        0 <= a <= b,
    
    ensures
        0 <= tables_before(x, a) <= tables_before(x, b),
    decreases b,
{
    if b > a {
        lemma_tables_before_mono(x, a, b - 1);
    } else {
        lemma_tables_before_nonneg(x, a);
    }
}

pub proof fn lemma_set_tables_before_nonneg(x: Seq<DescriptorSet>, n: int)
    ensures
        0 <= set_tables_before(x, n),
    decreases n,
{
    if n > 0 {
        lemma_set_tables_before_nonneg(x, n - 1);
    }
}

pub proof fn lemma_set_tables_before_mono(x: Seq<DescriptorSet>, a: int, b: int)
    requires
        0 <= a <= b,
    
    ensures
        0 <= set_tables_before(x, a) <= set_tables_before(x, b),
    decreases b,
{
    if b > a {
        lemma_set_tables_before_mono(x, a, b - 1);
    } else {
        lemma_set_tables_before_nonneg(x, a);
    }
}

/// Binds the descriptor sets `sets`, the first of which is set number
/// `first_set` of `layout`: declares the first set's heaps to the command
/// list, records their base addresses and points the table registers at
/// the sets' tables. Binding no set does nothing.
pub fn bind_descriptor_sets(
    commands: &mut Vec<NativeCommand>,
    pipeline: &mut PipelineCache,
    layout: &PipelineLayout,
    first_set: usize,
    sets: &[DescriptorSet],
)
    requires
        bind_sets_ok(*layout, first_set as int, sets@),
    ensures
        sets@.len() == 0 ==> ops_of(final(commands)@) == ops_of(old(commands)@) && *final(pipeline)
            == *old(pipeline),
        sets@.len() > 0 ==> {
            let s0 = sets@[0];
            let first = constant_registers(layout.root_constants@) + tables_before(
                layout.tables@,
                first_set as int,
            );
            let n = bound_count(layout.tables@.len() as int, first_set as int, sets@.len() as int);
            &&& ops_of(final(commands)@) == ops_of(old(commands)@).push(
                NativeOp::SetDescriptorHeaps {
                    srv_cbv_uav: s0.heap_srv_cbv_uav,
                    sampler: s0.heap_samplers,
                },
            )
            &&& final(pipeline).srv_cbv_uav_start == s0.srv_cbv_uav_gpu_start
            &&& final(pipeline).sampler_start == s0.sampler_gpu_start
            &&& final(pipeline).pipeline == old(pipeline).pipeline
            &&& final(pipeline).num_parameter_slots == old(pipeline).num_parameter_slots
            &&& final(pipeline).root_constants@ == old(pipeline).root_constants@
            &&& forall|r: int|
                0 <= r < ROOT_SIGNATURE_SIZE ==> {
                    let e = bound_element(
                        sets@,
                        n,
                        first,
                        s0.srv_cbv_uav_gpu_start,
                        s0.sampler_gpu_start,
                        r,
                    );
                    &&& #[trigger] final(pipeline).user_data.data@[r] == if e is Some {
                        e->0
                    } else {
                        old(pipeline).user_data.data@[r]
                    }
                    &&& final(pipeline).user_data.is_dirty(r) == (old(pipeline).user_data.is_dirty(r)
                        || e is Some)
                }
        },
{
    if sets.len() == 0 {
        return ;
    }
    let set_0 = sets[0];
    record(
        commands,
        NativeCommand::SetDescriptorHeaps {
            srv_cbv_uav: set_0.heap_srv_cbv_uav,
            sampler: set_0.heap_samplers,
        },
    );
    let srv_cbv_uav_start = set_0.srv_cbv_uav_gpu_start;
    let sampler_start = set_0.sampler_gpu_start;
    pipeline.srv_cbv_uav_start = srv_cbv_uav_start;
    pipeline.sampler_start = sampler_start;

    let ghost tables = layout.tables@;
    let ghost n = bound_count(tables.len() as int, first_set as int, sets@.len() as int);
    let ghost first = constant_registers(layout.root_constants@) + tables_before(
        tables,
        first_set as int,
    );
    proof {
        lemma_set_tables_before_mono(sets@, 0, n);
        lemma_tables_before_nonneg(tables, first_set as int);
        lemma_constants_before_nonneg(layout.root_constants@, layout.root_constants@.len() as int);
    }

    let mut table_id: usize = 0;
    let mut t: usize = 0;
    while t < first_set
        invariant
            first_set <= tables.len(),
            tables == layout.tables@,
            0 <= t <= first_set,
            table_id == tables_before(tables, t as int),
            tables_before(tables, first_set as int) <= ROOT_SIGNATURE_SIZE,
        decreases first_set - t,
    {
        proof {
            lemma_tables_before_mono(tables, t + 1, first_set as int);
        }
        if layout.tables[t].srv_cbv_uav {
            table_id = table_id + 1;
        }
        if layout.tables[t].samplers {
            table_id = table_id + 1;
        }
        t = t + 1;
    }

    let table_base_offset = count_constant_registers(&layout.root_constants);

    let ghost old_data = old(pipeline).user_data;
    let mut k: usize = 0;
    while k < sets.len() && k < layout.tables.len() - first_set
        invariant
            bind_sets_ok(*layout, first_set as int, sets@),
            sets@.len() > 0,
            first_set <= tables.len(),
            srv_cbv_uav_start == sets@[0].srv_cbv_uav_gpu_start,
            sampler_start == sets@[0].sampler_gpu_start,
            tables == layout.tables@,
            n == bound_count(tables.len() as int, first_set as int, sets@.len() as int),
            first == table_base_offset + tables_before(tables, first_set as int),
            0 <= k <= n,
            table_id + table_base_offset == first + set_tables_before(sets@, k as int),
            first + set_tables_before(sets@, n) <= ROOT_SIGNATURE_SIZE,
            ops_of(commands@) == ops_of(old(commands)@).push(
                NativeOp::SetDescriptorHeaps {
                    srv_cbv_uav: sets@[0].heap_srv_cbv_uav,
                    sampler: sets@[0].heap_samplers,
                },
            ),
            pipeline.srv_cbv_uav_start == srv_cbv_uav_start,
            pipeline.sampler_start == sampler_start,
            pipeline.pipeline == old(pipeline).pipeline,
            pipeline.num_parameter_slots == old(pipeline).num_parameter_slots,
            pipeline.root_constants@ == old(pipeline).root_constants@,
            forall|r: int|
                0 <= r < ROOT_SIGNATURE_SIZE ==> {
                    let e = bound_element(
                        sets@,
                        k as int,
                        first,
                        srv_cbv_uav_start,
                        sampler_start,
                        r,
                    );
                    &&& #[trigger] pipeline.user_data.data@[r] == if e is Some {
                        e->0
                    } else {
                        old_data.data@[r]
                    }
                    &&& pipeline.user_data.is_dirty(r) == (old_data.is_dirty(r) || e is Some)
                },
        decreases n - k,
    {
        let set = sets[k];
        let ghost before = pipeline.user_data;
        let ghost id0 = table_id;
        proof {
            lemma_set_tables_before_mono(sets@, k + 1, n);
        }
        match set.first_gpu_view {
            Some(gpu) => {
                let root_offset = table_id + table_base_offset;
                let offset = (gpu - srv_cbv_uav_start) as u32;
                pipeline.user_data.set_srv_cbv_uav_table(root_offset, offset);
                table_id = table_id + 1;
            },
            None => {},
        }
        let ghost mid = pipeline.user_data;
        match set.first_gpu_sampler {
            Some(gpu) => {
                let root_offset = table_id + table_base_offset;
                let offset = (gpu - sampler_start) as u32;
                pipeline.user_data.set_sampler_table(root_offset, offset);
                table_id = table_id + 1;
            },
            None => {},
        }
        proof {
            assert forall|r: int| 0 <= r < ROOT_SIGNATURE_SIZE implies {
                let e = bound_element(
                    sets@,
                    k + 1,
                    first,
                    srv_cbv_uav_start,
                    sampler_start,
                    r,
                );
                &&& #[trigger] pipeline.user_data.data@[r] == if e is Some {
                    e->0
                } else {
                    old_data.data@[r]
                }
                &&& pipeline.user_data.is_dirty(r) == (old_data.is_dirty(r) || e is Some)
            } by {
                let e0 = bound_element(sets@, k as int, first, srv_cbv_uav_start, sampler_start, r);
                let e = bound_element(sets@, k + 1, first, srv_cbv_uav_start, sampler_start, r);
                assert(before.data@[r] == if e0 is Some { e0->0 } else { old_data.data@[r] });
                assert(before.is_dirty(r) == (old_data.is_dirty(r) || e0 is Some));
                let at = first + set_tables_before(sets@, k as int);
                if set.first_gpu_view is Some && r == at {
                    assert(mid.data@[r] == e->0);
                } else {
                    assert(mid.data@[r] == before.data@[r]);
                }
                assert(mid.is_dirty(r) == (before.is_dirty(r) || (set.first_gpu_view is Some && r == at)));
            }
        }
        k = k + 1;
    }
    proof {
        assert(k as int == n);
    }
}

/// Value that a flush passes for a constant register: the constant, or
/// zero where the register holds anything else.
pub open spec fn constant_value(e: RootElement) -> u32 {
    match e {
        RootElement::Constant(v) => v,
        _ => 0,
    }
}

/// Whether a register holds a descriptor table.
pub open spec fn is_table(e: RootElement) -> bool {
    e is TableSrvCbvUav || e is TableSampler
}

/// The values of the `n` constant registers starting at `from`.
pub open spec fn range_values(data: Seq<RootElement>, from: int, n: int) -> Seq<u32> {
    Seq::new(n as nat, |j: int| constant_value(data[from + j]))
}

/// The root-constant writes of a flush, one per range in declaration order.
pub open spec fn constant_ops(pc: PipelineCache, bp: BindPoint) -> Seq<NativeOp> {
    let rcs = pc.root_constants@;
    Seq::new(
        rcs.len(),
        |i: int|
            NativeOp::SetRootConstants {
                bind_point: bp,
                slot: i as u32,
                values: range_values(
                    pc.user_data.data@,
                    constants_before(rcs, i),
                    rcs[i].end - rcs[i].start,
                ),
            },
    )
}

/// The descriptor-table write of a flush for parameter slot `slot`, if its
/// register is dirty and holds a table.
pub open spec fn table_op(pc: PipelineCache, bp: BindPoint, slot: int) -> Option<NativeOp> {
    let reg = pc.table_register(slot);
    if pc.user_data.is_dirty(reg) {
        match pc.user_data.data@[reg] {
            RootElement::TableSrvCbvUav(o) => Some(
                NativeOp::SetRootDescriptorTable {
                    bind_point: bp,
                    slot: slot as u32,
                    gpu: vstd::wrapping::u64_specs::wrapping_add(pc.srv_cbv_uav_start, o as u64),
                },
            ),
            RootElement::TableSampler(o) => Some(
                NativeOp::SetRootDescriptorTable {
                    bind_point: bp,
                    slot: slot as u32,
                    gpu: vstd::wrapping::u64_specs::wrapping_add(pc.sampler_start, o as u64),
                },
            ),
            _ => None,
        }
    } else {
        None
    }
}

/// The descriptor-table writes of a flush for the table slots below `upto`.
pub open spec fn table_ops(pc: PipelineCache, bp: BindPoint, upto: int) -> Seq<NativeOp>
    decreases upto,
{
    if upto <= pc.root_constants@.len() {
        Seq::empty()
    } else {
        let prev = table_ops(pc, bp, upto - 1);
        match table_op(pc, bp, upto - 1) {
            Some(op) => prev.push(op),
            None => prev,
        }
    }
}

/// Everything a flush writes to the command list.
pub open spec fn flush_ops(pc: PipelineCache, bp: BindPoint) -> Seq<NativeOp> {
    if pc.user_data.dirty_mask == 0 {
        Seq::empty()
    } else {
        constant_ops(pc, bp) + table_ops(pc, bp, pc.num_parameter_slots as int)
    }
}

/// Writes every dirty register of `pipeline` to the command list through
/// the root-parameter commands of `bind_point`: each constant range as a
/// whole, then each dirty table slot. Afterwards no register is dirty, so a
/// second flush with nothing written in between records nothing. Does
/// nothing when no register is dirty.
pub fn flush_user_data(
    pipeline: &mut PipelineCache,
    bind_point: BindPoint,
    commands: &mut Vec<NativeCommand>,
)
    requires
        old(pipeline).wf(),
    ensures
        ops_of(final(commands)@) == ops_of(old(commands)@) + flush_ops(*old(pipeline), bind_point),
        final(pipeline).wf(),
        final(pipeline).pipeline == old(pipeline).pipeline,
        final(pipeline).num_parameter_slots == old(pipeline).num_parameter_slots,
        final(pipeline).root_constants@ == old(pipeline).root_constants@,
        final(pipeline).srv_cbv_uav_start == old(pipeline).srv_cbv_uav_start,
        final(pipeline).sampler_start == old(pipeline).sampler_start,
        final(pipeline).user_data.data == old(pipeline).user_data.data,
        final(pipeline).user_data.dirty_mask == 0,
{
    if pipeline.user_data.dirty_mask == 0 {
        proof {
            assert(ops_of(commands@) =~= ops_of(commands@) + flush_ops(*old(pipeline), bind_point));
        }
        return ;
    }
    let ghost pc = *old(pipeline);
    let ghost ops0 = ops_of(old(commands)@);
    let ghost rcs = pc.root_constants@;
    let num_root_constant = pipeline.root_constants.len();
    let mut cur_index: usize = 0;
    let mut i: usize = 0;
    while i < num_root_constant
        invariant
            pc.wf(),
            rcs == pc.root_constants@,
            constants_wf(rcs),
            rcs.len() <= ROOT_SIGNATURE_SIZE,
            num_root_constant == rcs.len(),
            0 <= i <= num_root_constant,
            cur_index == constants_before(rcs, i as int),
            pipeline.pipeline == pc.pipeline,
            pipeline.num_parameter_slots == pc.num_parameter_slots,
            pipeline.root_constants@ == rcs,
            pipeline.srv_cbv_uav_start == pc.srv_cbv_uav_start,
            pipeline.sampler_start == pc.sampler_start,
            pipeline.user_data.data == pc.user_data.data,
            ops_of(commands@) == ops0 + constant_ops(pc, bind_point).take(i as int),
            forall|r: int|
                0 <= r < ROOT_SIGNATURE_SIZE ==> #[trigger] pipeline.user_data.is_dirty(r) == (
                pc.user_data.is_dirty(r) && !(r < cur_index)),
        decreases num_root_constant - i,
    {
        proof {
            lemma_constants_before_mono(rcs, i + 1, rcs.len() as int);
        }
        let num_constants = (pipeline.root_constants[i].end - pipeline.root_constants[i].start) as usize;
        let mut data: Vec<u32> = Vec::new();
        let mut c: usize = cur_index;
        while c < cur_index + num_constants
            invariant
                pc.wf(),
                rcs == pc.root_constants@,
                cur_index + num_constants <= ROOT_SIGNATURE_SIZE,
                cur_index <= c <= cur_index + num_constants,
                pipeline.pipeline == pc.pipeline,
                pipeline.num_parameter_slots == pc.num_parameter_slots,
                pipeline.root_constants@ == rcs,
                pipeline.srv_cbv_uav_start == pc.srv_cbv_uav_start,
                pipeline.sampler_start == pc.sampler_start,
                pipeline.user_data.data == pc.user_data.data,
                data@ == range_values(pc.user_data.data@, cur_index as int, c - cur_index),
                forall|r: int|
                    0 <= r < ROOT_SIGNATURE_SIZE ==> #[trigger] pipeline.user_data.is_dirty(r) == (
                    pc.user_data.is_dirty(r) && !(r < c)),
            decreases cur_index + num_constants - c,
        {
            let v = match pipeline.user_data.data[c] {
                RootElement::Constant(v) => v,
                _ => 0,
            };
            data.push(v);
            pipeline.user_data.clear_dirty(c);
            proof {
                assert(data@ =~= range_values(pc.user_data.data@, cur_index as int, c + 1 - cur_index));
            }
            c = c + 1;
        }
        let ghost before = ops_of(commands@);
        record(
            commands,
            NativeCommand::SetRootConstants { bind_point, slot: i as u32, values: data },
        );
        proof {
            let cops = constant_ops(pc, bind_point);
            assert(cops.len() == rcs.len());
            assert(cops[i as int] == NativeOp::SetRootConstants {
                bind_point,
                slot: i as u32,
                values: data@,
            });
            assert(cops.take(i + 1) =~= cops.take(i as int).push(cops[i as int]));
            assert(ops_of(commands@) =~= ops0 + constant_ops(pc, bind_point).take(i + 1));
        }
        cur_index = cur_index + num_constants;
        i = i + 1;
    }
    proof {
        assert(constant_ops(pc, bind_point).take(i as int) =~= constant_ops(pc, bind_point));
    }

    let table_start = count_constant_registers(&pipeline.root_constants);
    let num_slots = pipeline.num_parameter_slots;
    let mut slot: usize = num_root_constant;
    while slot < num_slots
        invariant
            pc.wf(),
            rcs == pc.root_constants@,
            table_start + (num_slots - num_root_constant) <= ROOT_SIGNATURE_SIZE,
            num_slots <= ROOT_SIGNATURE_SIZE,
            pc.user_data.dirty_mask != 0,
            num_root_constant == rcs.len(),
            num_slots == pc.num_parameter_slots,
            table_start == constant_registers(rcs),
            num_root_constant <= slot <= num_slots,
            pipeline.pipeline == pc.pipeline,
            pipeline.num_parameter_slots == pc.num_parameter_slots,
            pipeline.root_constants@ == rcs,
            pipeline.srv_cbv_uav_start == pc.srv_cbv_uav_start,
            pipeline.sampler_start == pc.sampler_start,
            pipeline.user_data.data == pc.user_data.data,
            ops_of(commands@) == ops0 + constant_ops(pc, bind_point) + table_ops(
                pc,
                bind_point,
                slot as int,
            ),
            forall|r: int|
                0 <= r < ROOT_SIGNATURE_SIZE ==> #[trigger] pipeline.user_data.is_dirty(r) == (
                pc.user_data.is_dirty(r) && !(r < table_start) && !(r < table_start + (slot
                    - num_root_constant) && is_table(pc.user_data.data@[r]))),
        decreases num_slots - slot,
    {
        let table_index = slot - num_root_constant + table_start;
        let ghost before = ops_of(commands@);
        let ghost ud = pipeline.user_data;
        proof {
            assert(ud.is_dirty(table_index as int) == pc.user_data.is_dirty(table_index as int));
            assert(table_index == pc.table_register(slot as int));
        }
        let dirty = (pipeline.user_data.dirty_mask >> (table_index as u64)) & 1u64 == 1u64;
        if dirty {
            let gpu: Option<u64> = match pipeline.user_data.data[table_index] {
                RootElement::TableSrvCbvUav(offset) => Some(
                    pipeline.srv_cbv_uav_start.wrapping_add(offset as u64),
                ),
                RootElement::TableSampler(offset) => Some(
                    pipeline.sampler_start.wrapping_add(offset as u64),
                ),
                _ => None,
            };
            match gpu {
                Some(gpu) => {
                    record(
                        commands,
                        NativeCommand::SetRootDescriptorTable {
                            bind_point,
                            slot: slot as u32,
                            gpu,
                        },
                    );
                    pipeline.user_data.clear_dirty(table_index);
                    proof {
                        assert(ops_of(commands@) =~= ops0 + constant_ops(pc, bind_point)
                            + table_ops(pc, bind_point, slot + 1));
                    }
                },
                None => {},
            }
        }
        proof {
            assert(ud.is_dirty(table_index as int) == pc.user_data.is_dirty(table_index as int));
            assert(ops_of(commands@) =~= ops0 + constant_ops(pc, bind_point) + table_ops(
                pc,
                bind_point,
                slot + 1,
            ));
        }
        slot = slot + 1;
    }
    pipeline.user_data.dirty_mask = 0;
}

/// The constants that root-constant range `rc` takes from a push of
/// `constants` at register `offset`, if the range starts inside the push.
pub open spec fn pushed_slice(rc: RootConstant, offset: int, constants: Seq<u32>) -> Option<
    Seq<u32>,
> {
    if offset <= rc.start < offset + constants.len() {
        let end = if constants.len() < rc.end - offset {
            constants.len() as int
        } else {
            rc.end - offset
        };
        Some(constants.subrange(rc.start - offset, end))
    } else {
        None
    }
}

/// `d` with `vals` written as constants from register `offset` on.
pub open spec fn write_constants(d: Seq<RootElement>, offset: int, vals: Seq<u32>) -> Seq<
    RootElement,
> {
    Seq::new(
        d.len(),
        |i: int|
            if offset <= i < offset + vals.len() {
                RootElement::Constant(vals[i - offset])
            } else {
                d[i]
            },
    )
}

/// The registers after a push has been applied for the ranges `rcs[0..n]`.
pub open spec fn pushed_data(
    d: Seq<RootElement>,
    rcs: Seq<RootConstant>,
    n: int,
    offset: int,
    constants: Seq<u32>,
) -> Seq<RootElement>
    decreases n,
{
    if n <= 0 {
        d
    } else {
        let prev = pushed_data(d, rcs, n - 1, offset, constants);
        match pushed_slice(rcs[n - 1], offset, constants) {
            Some(v) => write_constants(prev, offset, v),
            None => prev,
        }
    }
}

/// Whether a push marks register `r` dirty through one of the ranges `rcs[0..n]`.
pub open spec fn pushed_dirty(
    rcs: Seq<RootConstant>,
    n: int,
    offset: int,
    constants: Seq<u32>,
    r: int,
) -> bool {
    exists|j: int|
        0 <= j < n && #[trigger] pushed_slice(rcs[j], offset, constants) is Some && offset <= r
            < offset + pushed_slice(rcs[j], offset, constants)->0.len()
}

/// What a push of constants asks: well-ordered ranges, and every write
/// stays inside the register file.
pub open spec fn push_fits(rcs: Seq<RootConstant>, offset: int, constants: Seq<u32>) -> bool {
    &&& forall|j: int| 0 <= j < rcs.len() ==> #[trigger] rcs[j].start <= rcs[j].end
    &&& offset + constants.len() <= u32::MAX
    &&& forall|j: int|
        0 <= j < rcs.len() && #[trigger] pushed_slice(rcs[j], offset, constants) is Some ==> offset
            + pushed_slice(rcs[j], offset, constants)->0.len() <= ROOT_SIGNATURE_SIZE
}

/// Pushes `constants` at register `offset`: for each root-constant range of
/// `layout` that starts inside the pushed span, writes the part of the
/// span from that start up to the range end as constants from `offset` on.
pub fn push_constants(
    user_data: &mut UserData,
    layout: &PipelineLayout,
    offset: u32,
    constants: &[u32],
)
    requires
        push_fits(layout.root_constants@, offset as int, constants@),
    ensures
        final(user_data).data@ == pushed_data(
            old(user_data).data@,
            layout.root_constants@,
            layout.root_constants@.len() as int,
            offset as int,
            constants@,
        ),
        forall|r: int|
            0 <= r < ROOT_SIGNATURE_SIZE ==> #[trigger] final(user_data).is_dirty(r) == (old(
                user_data,
            ).is_dirty(r) || pushed_dirty(
                layout.root_constants@,
                layout.root_constants@.len() as int,
                offset as int,
                constants@,
                r,
            )),
{
    let ghost rcs = layout.root_constants@;
    let num = constants.len() as u32;
    let mut i: usize = 0;
    while i < layout.root_constants.len()
        invariant
            push_fits(rcs, offset as int, constants@),
            rcs == layout.root_constants@,
            num == constants@.len(),
            0 <= i <= rcs.len(),
            user_data.data@ == pushed_data(
                old(user_data).data@,
                rcs,
                i as int,
                offset as int,
                constants@,
            ),
            forall|r: int|
                0 <= r < ROOT_SIGNATURE_SIZE ==> #[trigger] user_data.is_dirty(r) == (old(
                    user_data,
                ).is_dirty(r) || pushed_dirty(rcs, i as int, offset as int, constants@, r)),
        decreases rcs.len() - i,
    {
        let rc = layout.root_constants[i];
        let ghost before = *user_data;
        if rc.start >= offset && rc.start < offset + num {
            let start = (rc.start - offset) as usize;
            let end_u32 = if num < rc.end - offset {
                num
            } else {
                rc.end - offset
            };
            let end = end_u32 as usize;
            let slice = &constants[start..end];
            proof {
                assert(pushed_slice(rcs[i as int], offset as int, constants@) is Some);
                assert(slice@ == pushed_slice(rcs[i as int], offset as int, constants@)->0);
            }
            user_data.set_constants(offset as usize, slice);
            proof {
                assert(user_data.data@ =~= write_constants(before.data@, offset as int, slice@));
            }
        }
        proof {
            assert forall|r: int| 0 <= r < ROOT_SIGNATURE_SIZE implies #[trigger] user_data.is_dirty(
                r,
            ) == (old(user_data).is_dirty(r) || pushed_dirty(
                rcs,
                i + 1,
                offset as int,
                constants@,
                r,
            )) by {
                assert(before.is_dirty(r) == (old(user_data).is_dirty(r) || pushed_dirty(
                    rcs,
                    i as int,
                    offset as int,
                    constants@,
                    r,
                )));
                if pushed_dirty(rcs, i + 1, offset as int, constants@, r) && !pushed_dirty(
                    rcs,
                    i as int,
                    offset as int,
                    constants@,
                    r,
                ) {
                    let j = choose|j: int|
                        0 <= j < i + 1 && #[trigger] pushed_slice(rcs[j], offset as int, constants@)
                            is Some && offset <= r < offset + pushed_slice(
                            rcs[j],
                            offset as int,
                            constants@,
                        )->0.len();
                    assert(j == i);
                }
                if pushed_dirty(rcs, i as int, offset as int, constants@, r) {
                    let j = choose|j: int|
                        0 <= j < i && #[trigger] pushed_slice(rcs[j], offset as int, constants@)
                            is Some && offset <= r < offset + pushed_slice(
                            rcs[j],
                            offset as int,
                            constants@,
                        )->0.len();
                    assert(pushed_dirty(rcs, i + 1, offset as int, constants@, r));
                }
            }
        }
        i = i + 1;
    }
}

} // verus!

verus! {

/// Whether `op` writes the descriptor table of parameter slot `slot`.
pub open spec fn is_table_write(op: NativeOp, slot: int) -> bool {
    op is SetRootDescriptorTable && op->SetRootDescriptorTable_slot == slot
}

proof fn lemma_table_ops_slots(pc: PipelineCache, bp: BindPoint, upto: int)
    requires
        pc.wf(),
        upto <= pc.num_parameter_slots,
    ensures
        forall|j: int|
            0 <= j < table_ops(pc, bp, upto).len() ==> {
                let op = #[trigger] table_ops(pc, bp, upto)[j];
                &&& op is SetRootDescriptorTable
                &&& pc.root_constants@.len() <= op->SetRootDescriptorTable_slot < upto
            },
        forall|j1: int, j2: int|
            0 <= j1 < j2 < table_ops(pc, bp, upto).len() ==> (#[trigger] table_ops(
                pc,
                bp,
                upto,
            )[j1])->SetRootDescriptorTable_slot < (#[trigger] table_ops(
                pc,
                bp,
                upto,
            )[j2])->SetRootDescriptorTable_slot,
        forall|slot: int|
            pc.root_constants@.len() <= slot < upto ==> ((exists|j: int|
                0 <= j < table_ops(pc, bp, upto).len() && is_table_write(
                    #[trigger] table_ops(pc, bp, upto)[j],
                    slot,
                )) <==> table_op(pc, bp, slot) is Some),
    decreases upto,
{
    if upto > pc.root_constants@.len() {
        lemma_table_ops_slots(pc, bp, upto - 1);
        let prev = table_ops(pc, bp, upto - 1);
        let cur = table_ops(pc, bp, upto);
        assert forall|slot: int|
            pc.root_constants@.len() <= slot < upto implies ((exists|j: int|
                0 <= j < cur.len() && is_table_write(#[trigger] cur[j], slot)) <==> table_op(
                pc,
                bp,
                slot,
            ) is Some) by {
            if slot < upto - 1 {
                if exists|j: int| 0 <= j < cur.len() && is_table_write(#[trigger] cur[j], slot) {
                    let j = choose|j: int| 0 <= j < cur.len() && is_table_write(#[trigger] cur[j], slot);
                    if j < prev.len() {
                        assert(prev[j] == cur[j]);
                    }
                }
                if table_op(pc, bp, slot) is Some {
                    let j = choose|j: int| 0 <= j < prev.len() && is_table_write(#[trigger] prev[j], slot);
                    assert(cur[j] == prev[j]);
                }
            } else {
                if table_op(pc, bp, slot) is Some {
                    assert(is_table_write(cur[cur.len() - 1], slot));
                } else {
                    if exists|j: int| 0 <= j < cur.len() && is_table_write(#[trigger] cur[j], slot) {
                        let j = choose|j: int|
                            0 <= j < cur.len() && is_table_write(#[trigger] cur[j], slot);
                        assert(cur[j] == prev[j]);
                    }
                }
            }
        }
    }
}

/// Flushing a cache with dirty registers writes each root-constant range
/// once, in order, with the values of its registers; writes the table of
/// a table slot exactly when its register was written since the last flush
/// (it is dirty and holds a table), and then exactly once; and writes no
/// table slot whose register was not written. Together with the contract
/// of `flush_user_data`, no register that was passed stays dirty.
pub proof fn lemma_flush_passes_written(pc: PipelineCache, bp: BindPoint)
    requires
        pc.wf(),
        pc.user_data.dirty_mask != 0,
    ensures
        ({
            let ops = flush_ops(pc, bp);
            let rcs = pc.root_constants@;
            &&& forall|i: int|
                0 <= i < rcs.len() ==> #[trigger] ops[i] == NativeOp::SetRootConstants {
                    bind_point: bp,
                    slot: i as u32,
                    values: range_values(
                        pc.user_data.data@,
                        constants_before(rcs, i),
                        rcs[i].end - rcs[i].start,
                    ),
                }
            &&& forall|j: int| rcs.len() <= j < ops.len() ==> (#[trigger] ops[j]) is SetRootDescriptorTable
            &&& forall|slot: int|
                rcs.len() <= slot < pc.num_parameter_slots ==> ((exists|j: int|
                    0 <= j < ops.len() && is_table_write(#[trigger] ops[j], slot)) <==> (
                pc.user_data.is_dirty(pc.table_register(slot)) && is_table(
                    pc.user_data.data@[pc.table_register(slot)],
                )))
            &&& forall|j1: int, j2: int, slot: int|
                0 <= j1 < ops.len() && 0 <= j2 < ops.len() && #[trigger] is_table_write(ops[j1], slot)
                    && #[trigger] is_table_write(ops[j2], slot) ==> j1 == j2
        }),
{
    let ops = flush_ops(pc, bp);
    let rcs = pc.root_constants@;
    let cops = constant_ops(pc, bp);
    let tops = table_ops(pc, bp, pc.num_parameter_slots as int);
    lemma_table_ops_slots(pc, bp, pc.num_parameter_slots as int);
    assert(ops == cops + tops);
    assert forall|slot: int| rcs.len() <= slot < pc.num_parameter_slots implies ((exists|j: int|
        0 <= j < ops.len() && is_table_write(#[trigger] ops[j], slot)) <==> (pc.user_data.is_dirty(
        pc.table_register(slot),
    ) && is_table(pc.user_data.data@[pc.table_register(slot)]))) by {
        if exists|j: int| 0 <= j < ops.len() && is_table_write(#[trigger] ops[j], slot) {
            let j = choose|j: int| 0 <= j < ops.len() && is_table_write(#[trigger] ops[j], slot);
            assert(j >= cops.len());
            assert(tops[j - cops.len()] == ops[j]);
        }
        if table_op(pc, bp, slot) is Some {
            let j = choose|j: int| 0 <= j < tops.len() && is_table_write(#[trigger] tops[j], slot);
            assert(ops[j + cops.len()] == tops[j]);
        }
    }
    assert forall|j1: int, j2: int, slot: int|
        0 <= j1 < ops.len() && 0 <= j2 < ops.len() && #[trigger] is_table_write(ops[j1], slot)
            && #[trigger] is_table_write(ops[j2], slot) implies j1 == j2 by {
        assert(j1 >= cops.len());
        assert(j2 >= cops.len());
        assert(tops[j1 - cops.len()] == ops[j1]);
        assert(tops[j2 - cops.len()] == ops[j2]);
    }
    assert forall|j: int| rcs.len() <= j < ops.len() implies (#[trigger] ops[j]) is SetRootDescriptorTable by {
        assert(tops[j - cops.len()] == ops[j]);
    }
}

} // verus!

use vstd::prelude::*;
use crate::buffer::{DeviceId, MatrixBufferHandle, MemoryDeviceKind};
use crate::device_plan::{ComputeDevice, DevicePlan, cpu_threads_of, has_gpu_in};
use crate::jobs::layers_view;
use crate::layer::{LayerDesc, LayerSpec, copy_dims};
use crate::model::{Model, ModelSpec, model_slices, models_view};
use crate::model_builder::{
    distinct_unit_buffers, law_group_builds_no_marker_units, build_models, group_fits, group_result, group_run_panics, law_models_slices_in_store,
    slices_in_store,
};
use crate::param_store::{ParamBuffer, ParamStore, StoreSpec, moved_buffer};
use crate::threads::{compute_threads_for, control_threads_for, split_cpu_threads};
use crate::text::{decimal, push_decimal};

verus! {

/// The device a model is built for.
#[derive(Clone, Copy, PartialEq, Eq, Structural, Debug)]
pub enum Device {
    Cpu { threads: usize },
    Gpu { id: usize },
}

/// A model plan: the description of its layers.
pub struct Plan {
    pub layers: Vec<LayerDesc>,
}

/// Placement of one unit on a compute device.
#[derive(Clone, Copy, PartialEq, Eq, Structural, Debug)]
pub struct ModelPlacement {
    pub compute_device: ComputeDevice,
}

/// A buffer the memory executor must move.
#[derive(Clone, Copy, PartialEq, Eq, Structural, Debug)]
pub struct BufferMove {
    pub handle_id: u64,
    pub target: MemoryDeviceKind,
}

/// Number of input streams: as many as the first unit joins when it is a
/// stream combiner, else one.
pub open spec fn input_stream_count_of(models: Seq<ModelSpec>) -> nat {
    if models.len() > 0 && models[0] is CombinerConnector {
        models[0]->CombinerConnector_input_dims.len()
    } else {
        1
    }
}

/// Number of output streams: two when the last unit splits, else one.
pub open spec fn output_stream_count_of(models: Seq<ModelSpec>) -> nat {
    if models.len() > 0 && (models.last() is SplitterConnector || models.last() is Splitter) {
        2
    } else {
        1
    }
}

/// A mixed model built from a layer list reads one input stream, and gives
/// two output streams exactly when its last unit is a splitter.
pub proof fn law_built_stream_counts(layers: Seq<LayerSpec>, store: StoreSpec)
    ensures
        ({
            let models = group_result(layers, store).models;
            &&& input_stream_count_of(models) == 1
            &&& output_stream_count_of(models) == if models.len() > 0 && models.last() is Splitter {
                2nat
            } else {
                1nat
            }
        }),
{
    law_group_builds_no_marker_units(layers, store);
    let models = group_result(layers, store).models;
    if models.len() > 0 {
        assert(!(models[0] is CombinerConnector));
        assert(!(models[models.len() - 1] is SplitterConnector));
    }
}

/// Expected feature shapes of the outputs.
pub open spec fn output_shapes_of(layers: Seq<LayerSpec>, models: Seq<ModelSpec>) -> Seq<Seq<usize>> {
    if output_stream_count_of(models) == 1 {
        seq![layers.last().output]
    } else {
        match models.last() {
            ModelSpec::Splitter { output_dims, .. } => Seq::new(
                output_dims.len(),
                |i: int| seq![output_dims[i]],
            ),
            ModelSpec::SplitterConnector { dim_a, dim_b } => seq![seq![dim_a], seq![dim_b]],
            _ => Seq::empty(),
        }
    }
}

/// The model of a list of shapes.
pub open spec fn shapes_view(v: Seq<Vec<usize>>) -> Seq<Seq<usize>> {
    v.map_values(|s: Vec<usize>| s@)
}

/// A model made of computational units that run on CPU and GPU workers.
pub struct MixedModel {
    models: Vec<Model>,
    param_store: ParamStore,
    compute_threads: usize,
    control_threads: usize,
    input_stream_count: usize,
    output_stream_count: usize,
    input_shapes: Vec<Vec<usize>>,
    output_shapes: Vec<Vec<usize>>,
    batch_size: usize,
}

/// What a freshly built mixed model holds, for the given layers and threads.
pub open spec fn built_from(
    m: MixedModel,
    layers: Seq<LayerSpec>,
    cpu_threads: nat,
    has_gpu: bool,
    physical_cores: nat,
    batch_size: usize,
) -> bool {
    let g = group_result(layers, StoreSpec { buffers: Seq::empty(), next_id: 0 });
    &&& m.wf()
    &&& m.models_spec() == g.models
    &&& m.store_spec() == g.store
    &&& m.input_stream_count_spec() == input_stream_count_of(g.models)
    &&& m.output_stream_count_spec() == output_stream_count_of(g.models)
    &&& m.input_shapes_spec() == seq![layers[0].input]
    &&& m.output_shapes_spec() == output_shapes_of(layers, g.models)
    &&& m.compute_threads_spec() == compute_threads_for(cpu_threads as int, has_gpu, physical_cores as int)
    &&& m.control_threads_spec() == control_threads_for(cpu_threads as int, physical_cores as int)
    &&& m.batch_size_spec() == batch_size
}

/// The layer lists a mixed model can be built from.
pub open spec fn buildable(layers: Seq<LayerSpec>) -> bool {
    let st = StoreSpec { buffers: Seq::empty(), next_id: 0 };
    &&& layers.len() > 0
    &&& !group_run_panics(layers, st)
    &&& group_fits(layers, st)
}

fn copy_shape_list(v: Vec<usize>) -> (r: Vec<Vec<usize>>)
    ensures
        shapes_view(r@) == seq![v@],
{
    let mut r: Vec<Vec<usize>> = Vec::new();
    r.push(v);
    assert(shapes_view(r@) =~= seq![v@]);
    r
}

impl MixedModel {
    pub closed spec fn models_spec(&self) -> Seq<ModelSpec> {
        models_view(self.models@)
    }

    pub closed spec fn store_spec(&self) -> StoreSpec {
        self.param_store@
    }

    pub closed spec fn input_stream_count_spec(&self) -> nat {
        self.input_stream_count as nat
    }

    pub closed spec fn output_stream_count_spec(&self) -> nat {
        self.output_stream_count as nat
    }

    pub closed spec fn input_shapes_spec(&self) -> Seq<Seq<usize>> {
        shapes_view(self.input_shapes@)
    }

    pub closed spec fn output_shapes_spec(&self) -> Seq<Seq<usize>> {
        shapes_view(self.output_shapes@)
    }

    pub closed spec fn compute_threads_spec(&self) -> nat {
        self.compute_threads as nat
    }

    pub closed spec fn control_threads_spec(&self) -> nat {
        self.control_threads as nat
    }

    pub closed spec fn batch_size_spec(&self) -> usize {
        self.batch_size
    }

    /// Internal consistency: the parameter store is consistent and every
    /// parameter slice of every unit points into it.
    pub closed spec fn wf(&self) -> bool {
        &&& self.param_store.wf()
        &&& slices_in_store(models_view(self.models@), self.param_store@)
        &&& distinct_unit_buffers(models_view(self.models@))
    }

    /// The slices of every unit of a consistent model point into its store.
    pub proof fn lemma_wf_slices(&self, k: int)
        requires
            self.wf(),
            0 <= k < self.models_spec().len(),
        ensures
            forall|j: int|
                0 <= j < model_slices(self.models_spec()[k]).len() ==> (#[trigger] model_slices(
                    self.models_spec()[k],
                )[j]).buffer_idx < self.store_spec().buffers.len(),
    {
    }

    /// Builds a mixed model from its layers for the given device plan.
    ///
    /// The CPU threads of the plan are split into control and compute
    /// threads; `physical_cores` is the parallelism the machine reports and
    /// `batch_size` the batch the initial placement is made for.
    pub fn from_plan_with_device_plan_and_batch(
        layers: Vec<LayerDesc>,
        device_plan: DevicePlan,
        batch_size: usize,
        physical_cores: usize,
    ) -> (r: Self)
        requires
            buildable(layers_view(layers@)),
            cpu_threads_of(device_plan.compute_devices@) >= 2,
        ensures
            built_from(
                r,
                layers_view(layers@),
                cpu_threads_of(device_plan.compute_devices@),
                has_gpu_in(device_plan.compute_devices@),
                physical_cores as nat,
                batch_size,
            ),
    {
        let cpu_threads = device_plan.cpu_threads();
        let has_gpu = device_plan.has_gpu();
        let (control_threads, compute_threads) = split_cpu_threads(cpu_threads, has_gpu, physical_cores);
        let mut param_store = ParamStore::new();
        proof {
            assert(param_store@ == StoreSpec { buffers: Seq::empty(), next_id: 0 }) by {
                assert(param_store@.buffers =~= Seq::<ParamBuffer>::empty());
            }
            law_models_slices_in_store(layers_view(layers@), StoreSpec { buffers: Seq::empty(), next_id: 0 });
            crate::model_builder::law_group_units_own_their_buffers(
                layers_view(layers@),
                StoreSpec { buffers: Seq::empty(), next_id: 0 },
            );
        }
        let models = build_models(&layers, &mut param_store);
        let ghost g = group_result(layers_view(layers@), StoreSpec { buffers: Seq::empty(), next_id: 0 });
        let input_stream_count: usize = if models.len() > 0 {
            match &models[0] {
                Model::CombinerConnector { input_dims, .. } => input_dims.len(),
                _ => 1,
            }
        } else {
            1
        };
        let n = models.len();
        let output_stream_count: usize = if n > 0 {
            match &models[n - 1] {
                Model::SplitterConnector { .. } | Model::Splitter { .. } => 2,
                _ => 1,
            }
        } else {
            1
        };
        let input_shapes = copy_shape_list(copy_dims(&layers[0].input_shape.streams));
        let output_shapes: Vec<Vec<usize>> = if output_stream_count == 1 {
            copy_shape_list(copy_dims(&layers[layers.len() - 1].output_shape.streams))
        } else {
            match &models[n - 1] {
                Model::Splitter { output_dims, .. } => {
                    let mut shapes: Vec<Vec<usize>> = Vec::new();
                    let mut i: usize = 0;
                    while i < output_dims.len()
                        invariant
                            i <= output_dims@.len(),
                            shapes@.len() == i,
                            forall|j: int| 0 <= j < i ==> (#[trigger] shapes@[j])@ == seq![output_dims@[j]],
                        decreases output_dims@.len() - i,
                    {
                        let mut s: Vec<usize> = Vec::new();
                        s.push(output_dims[i]);
                        proof {
                            assert(s@ =~= seq![output_dims@[i as int]]);
                        }
                        shapes.push(s);
                        i = i + 1;
                    }
                    proof {
                        assert(shapes_view(shapes@) =~= Seq::new(
                            output_dims@.len(),
                            |i: int| seq![output_dims@[i]],
                        ));
                    }
                    shapes
                },
                Model::SplitterConnector { dim_a, dim_b } => {
                    let mut a: Vec<usize> = Vec::new();
                    a.push(*dim_a);
                    let mut b: Vec<usize> = Vec::new();
                    b.push(*dim_b);
                    let mut shapes: Vec<Vec<usize>> = Vec::new();
                    shapes.push(a);
                    shapes.push(b);
                    proof {
                        assert(shapes_view(shapes@) =~= seq![seq![*dim_a], seq![*dim_b]]);
                    }
                    shapes
                },
                _ => {
                    let shapes: Vec<Vec<usize>> = Vec::new();
                    proof {
                        assert(shapes_view(shapes@) =~= Seq::<Seq<usize>>::empty());
                    }
                    shapes
                },
            }
        };
        proof {
            if models@.len() > 0 {
                assert(models_view(models@)[0] == models@[0]@);
                assert(models_view(models@).last() == models@[models@.len() - 1]@);
            }
        }
        MixedModel {
            models,
            param_store,
            compute_threads,
            control_threads,
            input_stream_count,
            output_stream_count,
            input_shapes,
            output_shapes,
            batch_size,
        }
    }
}

} // verus!

verus! {

/// Memory kind of a compute device.
pub open spec fn device_memory(d: ComputeDevice) -> MemoryDeviceKind {
    match d {
        ComputeDevice::Gpu { id } => MemoryDeviceKind::DeviceVram(DeviceId(id)),
        ComputeDevice::Cpu { .. } => MemoryDeviceKind::HostRam,
    }
}

/// The moves migrating one buffer to a target memory: parameters, gradients
/// and optimizer state; none when the buffer is already there.
pub open spec fn buffer_moves(b: ParamBuffer, target: MemoryDeviceKind) -> Seq<BufferMove> {
    if b.location == target {
        Seq::empty()
    } else {
        seq![BufferMove { handle_id: b.params.id, target }, BufferMove { handle_id: b.grads.id, target }]
            + match b.opt_state {
            Some(h) => seq![BufferMove { handle_id: h.id, target }],
            None => Seq::empty(),
        }
    }
}

/// Effect of migrating the units `0..k` of a placement: the store, and the
/// moves the memory executor carries out, in order.
pub open spec fn migration(models: Seq<ModelSpec>, placement: Seq<ModelPlacement>, store: StoreSpec, k: nat) -> (StoreSpec, Seq<BufferMove>)
    decreases k,
{
    if k == 0 {
        (store, Seq::empty())
    } else {
        let (st, moves) = migration(models, placement, store, (k - 1) as nat);
        let slices = model_slices(models[k - 1]);
        if slices.len() == 0 {
            (st, moves)
        } else {
            let idx = slices[0].buffer_idx as int;
            let target = device_memory(placement[k - 1].compute_device);
            let b = st.buffers[idx];
            if b.location == target {
                (st, moves)
            } else {
                (
                    StoreSpec { buffers: st.buffers.update(idx, moved_buffer(b, target)), ..st },
                    moves + buffer_moves(b, target),
                )
            }
        }
    }
}

pub proof fn lemma_migration_keeps_len(models: Seq<ModelSpec>, placement: Seq<ModelPlacement>, store: StoreSpec, k: nat)
    requires
        k <= models.len(),
        k <= placement.len(),
        slices_in_store(models, store),
    ensures
        migration(models, placement, store, k).0.buffers.len() == store.buffers.len(),
        migration(models, placement, store, k).0.next_id == store.next_id,
    decreases k,
{
    if k > 0 {
        lemma_migration_keeps_len(models, placement, store, (k - 1) as nat);
        let slices = model_slices(models[k - 1]);
        if slices.len() > 0 {
            assert(slices[0] == model_slices(models[k - 1])[0]);
        }
    }
}

/// The moves unit `k` of a placement needs in store `st`.
pub open spec fn unit_moves(models: Seq<ModelSpec>, placement: Seq<ModelPlacement>, st: StoreSpec, k: int) -> Seq<
    BufferMove,
> {
    let slices = model_slices(models[k]);
    if slices.len() == 0 {
        Seq::empty()
    } else {
        buffer_moves(st.buffers[slices[0].buffer_idx as int], device_memory(placement[k].compute_device))
    }
}

/// Every move of the list is one that `mover` may have answered with success.
pub open spec fn moves_done<F: Fn(u64, MemoryDeviceKind) -> Result<(), String>>(mover: F, moves: Seq<BufferMove>) -> bool {
    forall|i: int|
        0 <= i < moves.len() ==> call_ensures(
            mover,
            (#[trigger] moves[i].handle_id, moves[i].target),
            Ok::<(), String>(()),
        )
}

/// A migration stopped at move `j` of unit `k`: every move before it
/// succeeded, and `mover` answered that move with the failure `msg`.
pub open spec fn migration_failed_at<F: Fn(u64, MemoryDeviceKind) -> Result<(), String>>(
    mover: F,
    models: Seq<ModelSpec>,
    placement: Seq<ModelPlacement>,
    store: StoreSpec,
    k: int,
    j: int,
    msg: String,
) -> bool {
    let (st, moves) = migration(models, placement, store, k as nat);
    let um = unit_moves(models, placement, st, k);
    &&& 0 <= k < placement.len()
    &&& 0 <= j < um.len()
    &&& moves_done(mover, moves + um.take(j))
    &&& call_ensures(mover, (um[j].handle_id, um[j].target), Err::<(), String>(msg))
}

/// The name of the `j`-th move of a unit: its parameters, its gradients,
/// then its optimizer state.
pub open spec fn move_part(j: int) -> Seq<char> {
    if j == 0 {
        "params"@
    } else if j == 1 {
        "grads"@
    } else {
        "opt_state"@
    }
}

/// The refusal of a migration whose `j`-th move of unit `k` failed with `msg`.
pub open spec fn move_failure_text(k: nat, j: int, msg: Seq<char>) -> Seq<char> {
    "Failed to move "@ + move_part(j) + " for model "@ + decimal(k) + ": "@ + msg
}

/// The refusal of a migration whose `j`-th move of unit `k` failed with `msg`.
fn move_failure_message(k: usize, j: usize, msg: &str) -> (r: String)
    requires
        j < 3,
    ensures
        r@ == move_failure_text(k as nat, j as int, msg@),
{
    let mut e = "Failed to move ".to_string();
    if j == 0 {
        e.append("params");
    } else if j == 1 {
        e.append("grads");
    } else {
        e.append("opt_state");
    }
    e.append(" for model ");
    push_decimal(&mut e, k);
    e.append(": ");
    e.append(msg);
    e
}

proof fn lemma_moves_done_push<F: Fn(u64, MemoryDeviceKind) -> Result<(), String>>(mover: F, moves: Seq<BufferMove>, m: BufferMove)
    requires
        moves_done(mover, moves),
        call_ensures(mover, (m.handle_id, m.target), Ok::<(), String>(())),
    ensures
        moves_done(mover, moves.push(m)),
{
    let t = moves.push(m);
    assert forall|i: int| 0 <= i < t.len() implies call_ensures(
        mover,
        (#[trigger] t[i].handle_id, t[i].target),
        Ok::<(), String>(()),
    ) by {
        if i < moves.len() {
            assert(t[i] == moves[i]);
        }
    }
}

/// One step of a migration: unit `k` adds its moves, and its buffer moves
/// when it needs any.
proof fn lemma_migration_step(models: Seq<ModelSpec>, placement: Seq<ModelPlacement>, store: StoreSpec, k: nat)
    requires
        k < models.len(),
        k < placement.len(),
        slices_in_store(models, store),
    ensures
        ({
            let (st, moves) = migration(models, placement, store, k);
            let um = unit_moves(models, placement, st, k as int);
            &&& migration(models, placement, store, (k + 1) as nat).1 == moves + um
            &&& um.len() == 0 ==> migration(models, placement, store, (k + 1) as nat).0 == st
        }),
{
    let (st, moves) = migration(models, placement, store, k);
    let slices = model_slices(models[k as int]);
    if slices.len() > 0 {
        let b = st.buffers[slices[0].buffer_idx as int];
        let target = device_memory(placement[k as int].compute_device);
        if b.location == target {
            assert(buffer_moves(b, target) =~= Seq::<BufferMove>::empty());
            assert(moves + Seq::<BufferMove>::empty() =~= moves);
        } else {
            assert(buffer_moves(b, target).len() >= 2);
        }
    } else {
        assert(moves + Seq::<BufferMove>::empty() =~= moves);
    }
}

/// The buffer of unit `u` sits in the memory of its placed device.
pub open spec fn unit_in_place(models: Seq<ModelSpec>, placement: Seq<ModelPlacement>, st: StoreSpec, u: int) -> bool {
    model_slices(models[u]).len() > 0 ==> st.buffers[model_slices(models[u])[0].buffer_idx as int].location
        == device_memory(placement[u].compute_device)
}

proof fn lemma_migration_places(
    models: Seq<ModelSpec>,
    placement: Seq<ModelPlacement>,
    store: StoreSpec,
    k: nat,
)
    requires
        k <= models.len(),
        k <= placement.len(),
        slices_in_store(models, store),
        distinct_unit_buffers(models),
    ensures
        forall|u: int| 0 <= u < k ==> #[trigger] unit_in_place(models, placement, migration(models, placement, store, k).0, u),
    decreases k,
{
    if k > 0 {
        lemma_migration_places(models, placement, store, (k - 1) as nat);
        lemma_migration_keeps_len(models, placement, store, (k - 1) as nat);
        let prev = migration(models, placement, store, (k - 1) as nat).0;
        let cur = migration(models, placement, store, k).0;
        let slices = model_slices(models[k - 1]);
        if slices.len() > 0 {
            assert(slices[0] == model_slices(models[k - 1])[0]);
            let idx = slices[0].buffer_idx as int;
            assert forall|u: int| 0 <= u < k implies #[trigger] unit_in_place(models, placement, cur, u) by {
                if u < k - 1 && model_slices(models[u]).len() > 0 {
                    assert(model_slices(models[u])[0].buffer_idx != model_slices(models[k - 1])[0].buffer_idx);
                    assert(unit_in_place(models, placement, prev, u));
                    assert(model_slices(models[u])[0] == model_slices(models[u])[0]);
                    assert(model_slices(models[u])[0].buffer_idx < store.buffers.len());
                }
            }
        } else {
            assert forall|u: int| 0 <= u < k implies #[trigger] unit_in_place(models, placement, cur, u) by {
                if u < k - 1 {
                    assert(unit_in_place(models, placement, prev, u));
                }
            }
        }
    }
}

proof fn lemma_placed_migration_is_still(
    models: Seq<ModelSpec>,
    placement: Seq<ModelPlacement>,
    st: StoreSpec,
    k: nat,
)
    requires
        k <= models.len(),
        k <= placement.len(),
        forall|u: int| 0 <= u < k ==> #[trigger] unit_in_place(models, placement, st, u),
    ensures
        migration(models, placement, st, k) == (st, Seq::<BufferMove>::empty()),
    decreases k,
{
    if k > 0 {
        assert forall|u: int| 0 <= u < k - 1 implies #[trigger] unit_in_place(models, placement, st, u) by {
            assert(unit_in_place(models, placement, st, u));
        }
        lemma_placed_migration_is_still(models, placement, st, (k - 1) as nat);
        assert(unit_in_place(models, placement, st, k - 1));
    }
}

/// After a migration every placed unit whose parameters live in a buffer of
/// its own finds that buffer in the memory of its device, so migrating again
/// with the same placement moves nothing and leaves the store as it is.
pub proof fn law_migration_settles(models: Seq<ModelSpec>, placement: Seq<ModelPlacement>, store: StoreSpec)
    requires
        placement.len() <= models.len(),
        slices_in_store(models, store),
        distinct_unit_buffers(models),
    ensures
        ({
            let st1 = migration(models, placement, store, placement.len()).0;
            &&& forall|u: int| 0 <= u < placement.len() ==> #[trigger] unit_in_place(models, placement, st1, u)
            &&& migration(models, placement, st1, placement.len()) == (st1, Seq::<BufferMove>::empty())
        }),
{
    lemma_migration_places(models, placement, store, placement.len());
    let st1 = migration(models, placement, store, placement.len()).0;
    lemma_placed_migration_is_still(models, placement, st1, placement.len());
}

proof fn lemma_migration_moves_grow(models: Seq<ModelSpec>, placement: Seq<ModelPlacement>, store: StoreSpec, k: nat, n: nat)
    requires
        k <= n <= models.len(),
        n <= placement.len(),
        slices_in_store(models, store),
    ensures
        migration(models, placement, store, k).1.len() <= migration(models, placement, store, n).1.len(),
    decreases n - k,
{
    if k < n {
        lemma_migration_step(models, placement, store, k);
        lemma_migration_moves_grow(models, placement, store, k + 1, n);
    }
}

impl MixedModel {
    /// Builds a CPU model with the given number of threads.
    pub fn from_plan(layers: Vec<LayerDesc>, num_threads: usize, physical_cores: usize) -> (r: Self)
        requires
            buildable(layers_view(layers@)),
            num_threads >= 2,
        ensures
            built_from(r, layers_view(layers@), num_threads as nat, false, physical_cores as nat, 1),
    {
        let plan = DevicePlan::empty().cpu(0, num_threads).ram(0, 8192);
        proof {
            reveal_with_fuel(cpu_threads_of, 2);
            assert(plan.compute_devices@.drop_last() =~= Seq::<ComputeDevice>::empty());
            assert(plan.compute_devices@[0] == ComputeDevice::Cpu { id: 0, threads: num_threads });
            assert(!has_gpu_in(plan.compute_devices@));
        }
        Self::from_plan_with_device_plan(layers, plan, physical_cores)
    }

    /// Builds a model for one device: a CPU with its threads, or a GPU
    /// driven by two CPU threads.
    pub fn from_plan_with_device(layers: Vec<LayerDesc>, _num_threads: usize, device: Device, physical_cores: usize) -> (r: Self)
        requires
            buildable(layers_view(layers@)),
            device matches Device::Cpu { threads } ==> threads >= 2,
        ensures
            match device {
                Device::Cpu { threads } => built_from(
                    r,
                    layers_view(layers@),
                    threads as nat,
                    false,
                    physical_cores as nat,
                    1,
                ),
                Device::Gpu { .. } => built_from(r, layers_view(layers@), 2, true, physical_cores as nat, 1),
            },
    {
        let plan = match device {
            Device::Cpu { threads } => DevicePlan::empty().cpu(0, threads).ram(0, 8192),
            Device::Gpu { id } => DevicePlan::empty().cpu(0, 2).ram(0, 8192).gpu(id).vram(0, id, 4096),
        };
        proof {
            reveal_with_fuel(cpu_threads_of, 3);
            match device {
                Device::Cpu { threads } => {
                    assert(plan.compute_devices@.drop_last() =~= Seq::<ComputeDevice>::empty());
                    assert(plan.compute_devices@[0] == ComputeDevice::Cpu { id: 0, threads });
                    assert(!has_gpu_in(plan.compute_devices@));
                },
                Device::Gpu { id } => {
                    assert(plan.compute_devices@.drop_last().drop_last() =~= Seq::<ComputeDevice>::empty());
                    assert(plan.compute_devices@.drop_last()[0] == ComputeDevice::Cpu { id: 0, threads: 2 });
                    assert(plan.compute_devices@[1] is Gpu);
                },
            }
        }
        Self::from_plan_with_device_plan_and_batch(layers, plan, 1, physical_cores)
    }

    /// Builds a model for a device plan with a batch of one.
    pub fn from_plan_with_device_plan(layers: Vec<LayerDesc>, device_plan: DevicePlan, physical_cores: usize) -> (r: Self)
        requires
            buildable(layers_view(layers@)),
            cpu_threads_of(device_plan.compute_devices@) >= 2,
        ensures
            built_from(
                r,
                layers_view(layers@),
                cpu_threads_of(device_plan.compute_devices@),
                has_gpu_in(device_plan.compute_devices@),
                physical_cores as nat,
                1,
            ),
    {
        Self::from_plan_with_device_plan_and_batch(layers, device_plan, 1, physical_cores)
    }

    /// Builds a model from a plan for a device plan.
    pub fn build_with_device_plan(plan: Plan, device_plan: DevicePlan, physical_cores: usize) -> (r: Self)
        requires
            buildable(layers_view(plan.layers@)),
            cpu_threads_of(device_plan.compute_devices@) >= 2,
        ensures
            built_from(
                r,
                layers_view(plan.layers@),
                cpu_threads_of(device_plan.compute_devices@),
                has_gpu_in(device_plan.compute_devices@),
                physical_cores as nat,
                1,
            ),
    {
        Self::from_plan_with_device_plan_and_batch(plan.layers, device_plan, 1, physical_cores)
    }

    /// Builds a model from a plan for a device plan and a batch size.
    pub fn build_with_device_plan_and_batch(plan: Plan, device_plan: DevicePlan, batch_size: usize, physical_cores: usize) -> (r: Self)
        requires
            buildable(layers_view(plan.layers@)),
            cpu_threads_of(device_plan.compute_devices@) >= 2,
        ensures
            built_from(
                r,
                layers_view(plan.layers@),
                cpu_threads_of(device_plan.compute_devices@),
                has_gpu_in(device_plan.compute_devices@),
                physical_cores as nat,
                batch_size,
            ),
    {
        Self::from_plan_with_device_plan_and_batch(plan.layers, device_plan, batch_size, physical_cores)
    }

    /// Number of compute workers.
    pub fn num_workers(&self) -> (r: usize)
        ensures
            r == self.compute_threads_spec(),
    {
        self.compute_threads
    }

    /// Number of control workers.
    pub fn num_control_workers(&self) -> (r: usize)
        ensures
            r == self.control_threads_spec(),
    {
        self.control_threads
    }

    pub fn input_stream_count(&self) -> (r: usize)
        ensures
            r == self.input_stream_count_spec(),
    {
        self.input_stream_count
    }

    pub fn output_stream_count(&self) -> (r: usize)
        ensures
            r == self.output_stream_count_spec(),
    {
        self.output_stream_count
    }

    /// The batch size the initial placement was made for.
    pub fn batch_size(&self) -> (r: usize)
        ensures
            r == self.batch_size_spec(),
    {
        self.batch_size
    }

    pub fn param_store(&self) -> (r: &ParamStore)
        ensures
            r@ == self.store_spec(),
    {
        &self.param_store
    }

    pub fn models(&self) -> (r: &[Model])
        ensures
            models_view(r@) == self.models_spec(),
    {
        self.models.as_slice()
    }

    /// Expected feature shapes of the inputs.
    pub fn input_shapes(&self) -> (r: &Vec<Vec<usize>>)
        ensures
            shapes_view(r@) == self.input_shapes_spec(),
    {
        &self.input_shapes
    }

    /// Expected feature shapes of the outputs.
    pub fn output_shapes(&self) -> (r: &Vec<Vec<usize>>)
        ensures
            shapes_view(r@) == self.output_shapes_spec(),
    {
        &self.output_shapes
    }

    /// After a migration of a consistent model every placed unit finds its
    /// parameters in the memory of its device (each unit keeps them in a
    /// buffer of its own), so migrating again with the same placement needs
    /// no move and leaves the store as it is.
    pub proof fn law_migration_settles_for(&self, placement: Seq<ModelPlacement>)
        requires
            self.wf(),
            placement.len() <= self.models_spec().len(),
        ensures
            ({
                let st1 = migration(self.models_spec(), placement, self.store_spec(), placement.len()).0;
                &&& forall|u: int|
                    0 <= u < placement.len() ==> #[trigger] unit_in_place(self.models_spec(), placement, st1, u)
                &&& migration(self.models_spec(), placement, st1, placement.len()) == (
                    st1,
                    Seq::<BufferMove>::empty(),
                )
            }),
    {
        law_migration_settles(self.models_spec(), placement, self.store_spec());
    }

    /// Moves the parameters of every placed unit to the memory of its
    /// device, unit by unit: when the buffer of a unit's first slice is not
    /// there yet, `mover` moves its parameter, gradient and optimizer-state
    /// buffers, in that order, and the buffer is then recorded at its new
    /// place. The first move that fails stops the migration with an error
    /// that names the part and the unit; the units before it keep their new
    /// places and that unit keeps its old one.
    pub fn migrate_parameters<F: Fn(u64, MemoryDeviceKind) -> Result<(), String>>(
        &mut self,
        placement: &[ModelPlacement],
        mover: &F,
    ) -> (r: Result<(), String>)
        requires
            old(self).wf(),
            placement@.len() <= old(self).models_spec().len(),
            forall|id: u64, t: MemoryDeviceKind| mover.requires((id, t)),
        ensures
            final(self).wf(),
            final(self).models_spec() == old(self).models_spec(),
            final(self).input_stream_count_spec() == old(self).input_stream_count_spec(),
            final(self).output_stream_count_spec() == old(self).output_stream_count_spec(),
            final(self).compute_threads_spec() == old(self).compute_threads_spec(),
            migration(old(self).models_spec(), placement@, old(self).store_spec(), placement@.len()).1.len() == 0
                ==> r is Ok && final(self).store_spec() == old(self).store_spec(),
            r is Ok ==> {
                let (st, moves) = migration(
                    old(self).models_spec(),
                    placement@,
                    old(self).store_spec(),
                    placement@.len(),
                );
                &&& final(self).store_spec() == st
                &&& moves_done(*mover, moves)
            },
            r matches Err(e) ==> exists|k: int, j: int, msg: String|
                #[trigger] migration_failed_at(
                    *mover,
                    old(self).models_spec(),
                    placement@,
                    old(self).store_spec(),
                    k,
                    j,
                    msg,
                ) && final(self).store_spec() == migration(
                    old(self).models_spec(),
                    placement@,
                    old(self).store_spec(),
                    k as nat,
                ).0 && e@ == move_failure_text(k as nat, j, msg@),
    {
        let ghost ms = models_view(self.models@);
        let ghost st0 = self.param_store@;
        let mut k: usize = 0;
        while k < placement.len()
            invariant
                k <= placement@.len(),
                placement@.len() <= self.models@.len(),
                ms == models_view(self.models@),
                self.param_store.wf(),
                slices_in_store(ms, st0),
                slices_in_store(ms, self.param_store@),
                distinct_unit_buffers(ms),
                self.param_store@ == migration(ms, placement@, st0, k as nat).0,
                migration(ms, placement@, st0, placement@.len()).1.len() == 0 ==> self.param_store@ == st0,
                moves_done(*mover, migration(ms, placement@, st0, k as nat).1),
                forall|id: u64, t: MemoryDeviceKind| mover.requires((id, t)),
                self.input_stream_count == old(self).input_stream_count,
                self.output_stream_count == old(self).output_stream_count,
                self.compute_threads == old(self).compute_threads,
                st0 == old(self).param_store@,
                ms == models_view(old(self).models@),
            decreases placement@.len() - k,
        {
            let ghost prev = migration(ms, placement@, st0, k as nat);
            proof {
                lemma_migration_keeps_len(ms, placement@, st0, k as nat);
                lemma_migration_step(ms, placement@, st0, k as nat);
                assert(ms[k as int] == self.models@[k as int]@);
            }
            let target = match placement[k].compute_device {
                ComputeDevice::Gpu { id } => MemoryDeviceKind::DeviceVram(DeviceId(id)),
                ComputeDevice::Cpu { .. } => MemoryDeviceKind::HostRam,
            };
            let first = match &self.models[k] {
                Model::UniversalProcessor(_, slices, _) => if slices.len() > 0 {
                    Some(slices[0])
                } else {
                    None
                },
                Model::Splitter { slice, .. } => Some(*slice),
                Model::Combiner { slice, .. } => Some(*slice),
                _ => None,
            };
            match first {
                Some(slice) => {
                    proof {
                        assert(model_slices(ms[k as int])[0] == slice);
                    }
                    let b = *self.param_store.get_param_buffer(&slice);
                    if b.location != target {
                        let ghost um = buffer_moves(b, target);
                        proof {
                            lemma_migration_moves_grow(ms, placement@, st0, (k + 1) as nat, placement@.len());
                            assert(um == unit_moves(ms, placement@, prev.0, k as int));
                            assert(um[0] == BufferMove { handle_id: b.params.id, target });
                            assert(um[1] == BufferMove { handle_id: b.grads.id, target });
                        }
                        let r0 = mover(b.params.id, target);
                        match r0 {
                            Ok(()) => {},
                            Err(m) => {
                                proof {
                                    assert(um.take(0) =~= Seq::<BufferMove>::empty());
                                    assert(prev.1 + um.take(0) =~= prev.1);
                                    assert(migration_failed_at(*mover, old(self).models_spec(), placement@, old(self).store_spec(), k as int, 0, m));
                                    assert(self.store_spec() == migration(old(self).models_spec(), placement@, old(self).store_spec(), k as nat).0);
                                    assert(self.wf());
                                }
                                return Err(move_failure_message(k, 0, m.as_str()));
                            },
                        }
                        let r1 = mover(b.grads.id, target);
                        match r1 {
                            Ok(()) => {},
                            Err(m) => {
                                proof {
                                    assert(r0->Ok_0 == ());
                                    lemma_moves_done_push(*mover, prev.1, um[0]);
                                    assert(um.take(1) =~= seq![um[0]]);
                                    assert(prev.1 + um.take(1) =~= prev.1.push(um[0]));
                                    assert(migration_failed_at(*mover, old(self).models_spec(), placement@, old(self).store_spec(), k as int, 1, m));
                                    assert(self.store_spec() == migration(old(self).models_spec(), placement@, old(self).store_spec(), k as nat).0);
                                    assert(self.wf());
                                }
                                return Err(move_failure_message(k, 1, m.as_str()));
                            },
                        }
                        proof {
                            assert(r0->Ok_0 == ());
                            assert(r1->Ok_0 == ());
                            lemma_moves_done_push(*mover, prev.1, um[0]);
                            lemma_moves_done_push(*mover, prev.1.push(um[0]), um[1]);
                            assert(um.take(2) =~= seq![um[0], um[1]]);
                            assert(prev.1 + um.take(2) =~= prev.1.push(um[0]).push(um[1]));
                        }
                        match b.opt_state {
                            Some(h) => {
                                proof {
                                    assert(um[2] == BufferMove { handle_id: h.id, target });
                                }
                                let r2 = mover(h.id, target);
                                match r2 {
                                    Ok(()) => {
                                        proof {
                                            assert(r2->Ok_0 == ());
                                            lemma_moves_done_push(*mover, prev.1 + um.take(2), um[2]);
                                            assert(um =~= um.take(2).push(um[2]));
                                            assert(prev.1 + um =~= (prev.1 + um.take(2)).push(um[2]));
                                        }
                                    },
                                    Err(m) => {
                                        proof {
                                            assert(migration_failed_at(*mover, old(self).models_spec(), placement@, old(self).store_spec(), k as int, 2, m));
                                    assert(self.store_spec() == migration(old(self).models_spec(), placement@, old(self).store_spec(), k as nat).0);
                                    assert(self.wf());
                                        }
                                        return Err(move_failure_message(k, 2, m.as_str()));
                                    },
                                }
                            },
                            None => {
                                proof {
                                    assert(um =~= um.take(2));
                                }
                            },
                        }
                        self.param_store.move_buffer(slice.buffer_idx, target);
                    }
                },
                None => {},
            }
            k = k + 1;
        }
        proof {
            lemma_migration_keeps_len(ms, placement@, st0, placement@.len());
        }
        Ok(())
    }
}

} // verus!

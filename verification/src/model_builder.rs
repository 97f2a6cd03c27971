use vstd::prelude::*;
use crate::buffer::MemoryDeviceKind;
use crate::builder::{chosen_branch, first_pos, sizes_of};
use crate::builder_laws::{is_topology_kind, lemma_sum_sizes_push, lemma_total_len_push, processing_layers, requested_params, topology_count};
use crate::jobs::{copy_layers, layers_view};
use crate::layer::{LayerDesc, LayerKind, LayerSpec, copy_dims, is_processing_kind, opt_dims_view};
use crate::model::{Model, ModelSpec, model_slices, models_view};
use crate::param_store::{ParamSlice, ParamStore, StoreSpec, alloc_fits, alloc_spec, new_buffer, sum_sizes, total_len};

verus! {

/// The state of grouping layers into units after a prefix of the layer list.
pub struct GroupModel {
    pub models: Seq<ModelSpec>,
    pub cur_layers: Seq<LayerSpec>,
    pub active_ports: Option<Seq<usize>>,
    pub current_branch: Option<usize>,
    pub current_stream_indices: Option<Seq<usize>>,
    pub store: StoreSpec,
}

pub open spec fn group_initial(store: StoreSpec) -> GroupModel {
    GroupModel {
        models: Seq::empty(),
        cur_layers: Seq::empty(),
        active_ports: None,
        current_branch: None,
        current_stream_indices: None,
        store,
    }
}

/// Closes the run of ordinary layers being accumulated, if any; its parameters live in host RAM.
pub open spec fn group_finalize(m: GroupModel) -> GroupModel {
    if m.cur_layers.len() == 0 {
        m
    } else {
        let (st, slices) = alloc_spec(m.store, sizes_of(m.cur_layers), MemoryDeviceKind::HostRam);
        GroupModel {
            models: m.models.push(
                ModelSpec::UniversalProcessor {
                    layers: m.cur_layers,
                    slices,
                    stream_indices: m.current_stream_indices,
                },
            ),
            cur_layers: Seq::empty(),
            current_stream_indices: None,
            store: st,
            ..m
        }
    }
}

pub open spec fn group_mark_branch(m: GroupModel, d: LayerSpec) -> GroupModel {
    let dims = if d.output.len() > 0 {
        d.output
    } else {
        d.input
    };
    if dims.len() == 1 {
        match m.active_ports {
            Some(ports) => GroupModel {
                current_branch: Some(
                    match first_pos(ports, dims[0]) {
                        Some(p) => p as usize,
                        None => 0,
                    },
                ),
                ..m
            },
            None => GroupModel { active_ports: Some(seq![dims[0]]), current_branch: Some(0), ..m },
        }
    } else {
        GroupModel { active_ports: Some(dims), current_branch: None, ..m }
    }
}

pub open spec fn group_splitter(m: GroupModel, d: LayerSpec) -> GroupModel {
    let (st, slices) = alloc_spec(m.store, seq![d.param_len], MemoryDeviceKind::HostRam);
    GroupModel {
        models: m.models.push(
            ModelSpec::Splitter { input_dim: d.input[0], output_dims: d.output, slice: slices[0] },
        ),
        active_ports: Some(d.output),
        current_branch: Some(0),
        store: st,
        ..m
    }
}

pub open spec fn group_combiner(m: GroupModel, d: LayerSpec) -> GroupModel {
    let (st, slices) = alloc_spec(m.store, seq![d.param_len], MemoryDeviceKind::HostRam);
    GroupModel {
        models: m.models.push(
            ModelSpec::Combiner { input_dim: d.input[0], output_dim: d.output[0], slice: slices[0] },
        ),
        active_ports: Some(seq![d.output[0]]),
        current_branch: None,
        store: st,
        ..m
    }
}

pub open spec fn group_layer(m: GroupModel, d: LayerSpec) -> GroupModel {
    let m1 = if m.current_stream_indices is None {
        match m.active_ports {
            Some(ports) => {
                let b = chosen_branch(ports, m.current_branch, d.input[0]);
                GroupModel { current_branch: Some(b), current_stream_indices: Some(seq![b]), ..m }
            },
            None => m,
        }
    } else {
        m
    };
    GroupModel { cur_layers: m1.cur_layers.push(d), ..m1 }
}

/// One step of grouping layers into units.
pub open spec fn group_step(m: GroupModel, d: LayerSpec) -> GroupModel {
    match d.kind {
        LayerKind::CombinerConnector => m,
        LayerKind::SplitterConnector => group_mark_branch(group_finalize(m), d),
        LayerKind::Splitter => group_splitter(group_finalize(m), d),
        LayerKind::Combiner => group_combiner(group_finalize(m), d),
        LayerKind::Unsqueeze => {
            let m1 = group_finalize(m);
            GroupModel { models: m1.models.push(ModelSpec::Unsqueeze { dims: d.output }), ..m1 }
        },
        LayerKind::ReduceMean => {
            let m1 = group_finalize(m);
            GroupModel { models: m1.models.push(ModelSpec::ReduceMean { dims: d.output }), ..m1 }
        },
        _ => group_layer(m, d),
    }
}

/// True when the step reads a stream size the layer does not have.
pub open spec fn group_step_panics(m: GroupModel, d: LayerSpec) -> bool {
    ||| d.kind is Splitter && d.input.len() == 0
    ||| d.kind is Combiner && (d.input.len() == 0 || d.output.len() == 0)
    ||| is_processing_kind(d.kind) && m.current_stream_indices is None && m.active_ports is Some
        && d.input.len() == 0
}

pub open spec fn group_run(layers: Seq<LayerSpec>, store: StoreSpec) -> GroupModel
    decreases layers.len(),
{
    if layers.len() == 0 {
        group_initial(store)
    } else {
        group_step(group_run(layers.drop_last(), store), layers.last())
    }
}

pub open spec fn group_run_panics(layers: Seq<LayerSpec>, store: StoreSpec) -> bool
    decreases layers.len(),
{
    layers.len() > 0 && (group_run_panics(layers.drop_last(), store) || group_step_panics(
        group_run(layers.drop_last(), store),
        layers.last(),
    ))
}

/// The units built from a layer list and the store after their parameters are allocated.
pub open spec fn group_result(layers: Seq<LayerSpec>, store: StoreSpec) -> GroupModel {
    group_finalize(group_run(layers, store))
}

/// The parameters of all units fit in the machine's address space and the
/// buffer identifiers do not run out.
pub open spec fn group_fits(layers: Seq<LayerSpec>, store: StoreSpec) -> bool {
    &&& total_len(store.buffers) + requested_params(layers) <= usize::MAX
    &&& store.next_id + 2 * layers.len() <= u64::MAX
    &&& store.buffers.len() + layers.len() <= usize::MAX
}

pub proof fn lemma_requested_prefix(s: Seq<LayerSpec>, i: int)
    requires
        0 <= i <= s.len(),
    ensures
        requested_params(s.take(i)) <= requested_params(s),
    decreases s.len() - i,
{
    if i < s.len() {
        assert(s.take(i + 1).drop_last() =~= s.take(i));
        lemma_requested_prefix(s, i + 1);
    } else {
        assert(s.take(i) =~= s);
    }
}

pub proof fn lemma_group_panics_prefix(layers: Seq<LayerSpec>, store: StoreSpec, i: int)
    requires
        0 <= i <= layers.len(),
        group_run_panics(layers.take(i), store),
    ensures
        group_run_panics(layers, store),
    decreases layers.len() - i,
{
    if i < layers.len() {
        assert(layers.take(i + 1).drop_last() =~= layers.take(i));
        lemma_group_panics_prefix(layers, store, i + 1);
    } else {
        assert(layers.take(i) =~= layers);
    }
}

struct GroupAcc {
    models: Vec<Model>,
    cur_layers: Vec<LayerDesc>,
    cur_sizes: Vec<usize>,
    active_ports: Option<Vec<usize>>,
    current_branch: Option<usize>,
    current_stream_indices: Option<Vec<usize>>,
}

spec fn group_pending(acc: &GroupAcc) -> nat {
    if acc.cur_layers@.len() > 0 {
        1
    } else {
        0
    }
}

impl GroupAcc {
    spec fn model(&self, store: StoreSpec) -> GroupModel {
        GroupModel {
            models: models_view(self.models@),
            cur_layers: layers_view(self.cur_layers@),
            active_ports: opt_dims_view(&self.active_ports),
            current_branch: self.current_branch,
            current_stream_indices: opt_dims_view(&self.current_stream_indices),
            store,
        }
    }

    spec fn inv(&self) -> bool {
        self.cur_sizes@ == sizes_of(layers_view(self.cur_layers@))
    }
}

/// The allocation budget left after the units built so far: what the
/// remaining layers ask for still fits.
spec fn budget(acc: &GroupAcc, store: StoreSpec, st0: StoreSpec, done: Seq<LayerSpec>, all: Seq<LayerSpec>) -> bool {
    &&& total_len(store.buffers) + sum_sizes(acc.cur_sizes@) == total_len(st0.buffers)
        + requested_params(done)
    &&& requested_params(done) <= requested_params(all)
    &&& total_len(st0.buffers) + requested_params(all) <= usize::MAX
    &&& store.next_id + 2 * group_pending(acc) <= st0.next_id + 2 * done.len()
    &&& st0.next_id + 2 * all.len() <= u64::MAX
    &&& done.len() <= all.len()
    &&& acc.models@.len() + group_pending(acc) <= done.len()
}

fn group_finalize_exec(acc: &mut GroupAcc, store: &mut ParamStore, Ghost(st0): Ghost<StoreSpec>, Ghost(done): Ghost<Seq<LayerSpec>>, Ghost(all): Ghost<Seq<LayerSpec>>)
    requires
        old(acc).inv(),
        old(store).wf(),
        budget(old(acc), old(store)@, st0, done, all),
    ensures
        final(acc).inv(),
        final(store).wf(),
        final(acc).model(final(store)@) == group_finalize(old(acc).model(old(store)@)),
        budget(final(acc), final(store)@, st0, done, all),
        final(acc).cur_layers@.len() == 0,
{
    if acc.cur_layers.len() == 0 {
        return;
    }
    proof {
        assert(sizes_of(layers_view(acc.cur_layers@)) == acc.cur_sizes@);
        assert(alloc_fits(store@, acc.cur_sizes@));
    }
    let ghost old_store = store@;
    let slices = store.allocate_segment(&acc.cur_sizes, MemoryDeviceKind::HostRam);
    proof {
        lemma_total_len_push(old_store.buffers, new_buffer(old_store, acc.cur_sizes@, MemoryDeviceKind::HostRam));
    }
    let mut layers: Vec<LayerDesc> = Vec::new();
    std::mem::swap(&mut layers, &mut acc.cur_layers);
    let indices = acc.current_stream_indices.take();
    let m = Model::UniversalProcessor(layers, slices, indices);
    let ghost old_models = acc.models@;
    acc.models.push(m);
    acc.cur_sizes.clear();
    proof {
        assert(models_view(acc.models@) =~= models_view(old_models).push(m@));
        assert(layers_view(acc.cur_layers@) =~= Seq::<LayerSpec>::empty());
        assert(acc.cur_sizes@ =~= sizes_of(layers_view(acc.cur_layers@)));
        assert(sum_sizes(acc.cur_sizes@) == 0);
    }
}

} // verus!

verus! {

spec fn group_step_pre(acc: &GroupAcc, store: &ParamStore, st0: StoreSpec, all: Seq<LayerSpec>, i: int, d: LayerSpec) -> bool {
    &&& acc.inv()
    &&& store.wf()
    &&& 0 <= i < all.len()
    &&& all[i] == d
    &&& budget(acc, store@, st0, all.take(i), all)
    &&& !group_step_panics(acc.model(store@), d)
}

spec fn group_step_post(acc: &GroupAcc, store: &ParamStore, st0: StoreSpec, all: Seq<LayerSpec>, i: int, expected: GroupModel) -> bool {
    &&& acc.inv()
    &&& store.wf()
    &&& acc.model(store@) == expected
    &&& budget(acc, store@, st0, all.take(i + 1), all)
}

proof fn lemma_take_push(all: Seq<LayerSpec>, i: int)
    requires
        0 <= i < all.len(),
    ensures
        all.take(i + 1) == all.take(i).push(all[i]),
        requested_params(all.take(i + 1)) <= requested_params(all),
{
    assert(all.take(i + 1) =~= all.take(i).push(all[i]));
    lemma_requested_prefix(all, i + 1);
}

fn group_connector_exec(acc: &mut GroupAcc, store: &mut ParamStore, d: &LayerDesc, Ghost(st0): Ghost<StoreSpec>, Ghost(all): Ghost<Seq<LayerSpec>>, Ghost(i): Ghost<int>)
    requires
        group_step_pre(old(acc), old(store), st0, all, i, d@),
        d@.kind is Splitter || d@.kind is Combiner,
    ensures
        group_step_post(final(acc), final(store), st0, all, i, group_step(old(acc).model(old(store)@), d@)),
{
    proof {
        lemma_take_push(all, i);
        crate::builder_laws::lemma_prefix_push(all.take(i), d@);
    }
    group_finalize_exec(acc, store, Ghost(st0), Ghost(all.take(i)), Ghost(all));
    let mut sizes: Vec<usize> = Vec::new();
    sizes.push(d.param_len());
    proof {
        assert(sizes@ =~= seq![d@.param_len]);
        crate::builder_laws::lemma_single_size(d@.param_len);
        assert(alloc_fits(store@, sizes@));
    }
    let ghost old_store = store@;
    let slices = store.allocate_segment(&sizes, MemoryDeviceKind::HostRam);
    proof {
        lemma_total_len_push(old_store.buffers, new_buffer(old_store, sizes@, MemoryDeviceKind::HostRam));
    }
    let slice = slices[0];
    let input_dim = d.input_shape.streams[0];
    let m = match d.kind {
        LayerKind::Splitter => {
            acc.active_ports = Some(copy_dims(&d.output_shape.streams));
            acc.current_branch = Some(0);
            Model::Splitter { input_dim, output_dims: copy_dims(&d.output_shape.streams), slice }
        },
        _ => {
            let output_dim = d.output_shape.streams[0];
            let mut ports: Vec<usize> = Vec::new();
            ports.push(output_dim);
            proof {
                assert(ports@ =~= seq![output_dim]);
            }
            acc.active_ports = Some(ports);
            acc.current_branch = None;
            Model::Combiner { input_dim, output_dim, slice }
        },
    };
    let ghost old_models = acc.models@;
    acc.models.push(m);
    proof {
        assert(models_view(acc.models@) =~= models_view(old_models).push(m@));
    }
}

fn group_marker_exec(acc: &mut GroupAcc, store: &mut ParamStore, d: &LayerDesc, Ghost(st0): Ghost<StoreSpec>, Ghost(all): Ghost<Seq<LayerSpec>>, Ghost(i): Ghost<int>)
    requires
        group_step_pre(old(acc), old(store), st0, all, i, d@),
        d@.kind is SplitterConnector,
    ensures
        group_step_post(final(acc), final(store), st0, all, i, group_step(old(acc).model(old(store)@), d@)),
{
    proof {
        lemma_take_push(all, i);
        crate::builder_laws::lemma_prefix_push(all.take(i), d@);
    }
    group_finalize_exec(acc, store, Ghost(st0), Ghost(all.take(i)), Ghost(all));
    let dims: Vec<usize> = if d.output_shape.streams.len() > 0 {
        copy_dims(&d.output_shape.streams)
    } else {
        copy_dims(&d.input_shape.streams)
    };
    if dims.len() == 1 {
        match &acc.active_ports {
            Some(ports) => {
                let pos = crate::builder::position_of(ports, dims[0]);
                acc.current_branch = Some(
                    match pos {
                        Some(p) => p,
                        None => 0,
                    },
                );
            },
            None => {
                let mut ports: Vec<usize> = Vec::new();
                ports.push(dims[0]);
                acc.active_ports = Some(ports);
                acc.current_branch = Some(0);
                proof {
                    assert(opt_dims_view(&acc.active_ports).unwrap() =~= seq![dims@[0]]);
                }
            },
        }
    } else {
        acc.active_ports = Some(dims);
        acc.current_branch = None;
    }
}

fn group_dim_exec(acc: &mut GroupAcc, store: &mut ParamStore, d: &LayerDesc, Ghost(st0): Ghost<StoreSpec>, Ghost(all): Ghost<Seq<LayerSpec>>, Ghost(i): Ghost<int>)
    requires
        group_step_pre(old(acc), old(store), st0, all, i, d@),
        d@.kind is Unsqueeze || d@.kind is ReduceMean,
    ensures
        group_step_post(final(acc), final(store), st0, all, i, group_step(old(acc).model(old(store)@), d@)),
{
    proof {
        lemma_take_push(all, i);
        crate::builder_laws::lemma_prefix_push(all.take(i), d@);
    }
    group_finalize_exec(acc, store, Ghost(st0), Ghost(all.take(i)), Ghost(all));
    let dims = copy_dims(&d.output_shape.streams);
    let m = match d.kind {
        LayerKind::Unsqueeze => Model::Unsqueeze(dims),
        _ => Model::ReduceMean(dims),
    };
    let ghost old_models = acc.models@;
    acc.models.push(m);
    proof {
        assert(models_view(acc.models@) =~= models_view(old_models).push(m@));
    }
}

fn group_layer_exec(acc: &mut GroupAcc, store: &ParamStore, d: &LayerDesc, Ghost(st0): Ghost<StoreSpec>, Ghost(all): Ghost<Seq<LayerSpec>>, Ghost(i): Ghost<int>)
    requires
        group_step_pre(old(acc), store, st0, all, i, d@),
        is_processing_kind(d@.kind),
    ensures
        group_step_post(final(acc), store, st0, all, i, group_step(old(acc).model(store@), d@)),
{
    proof {
        lemma_take_push(all, i);
        crate::builder_laws::lemma_prefix_push(all.take(i), d@);
    }
    if acc.current_stream_indices.is_none() {
        match &acc.active_ports {
            Some(ports) => {
                let in_dim = d.input_shape.streams[0];
                let pos = crate::builder::position_of(ports, in_dim);
                let b: usize = match pos {
                    Some(p) => p,
                    None => match acc.current_branch {
                        Some(b) => b,
                        None => 0,
                    },
                };
                acc.current_branch = Some(b);
                let mut idx: Vec<usize> = Vec::new();
                idx.push(b);
                proof {
                    assert(idx@ =~= seq![b]);
                }
                acc.current_stream_indices = Some(idx);
            },
            None => {},
        }
    }
    let ghost old_sizes = acc.cur_sizes@;
    acc.cur_sizes.push(d.param_len());
    let ghost old_layers = acc.cur_layers@;
    acc.cur_layers.push(d.copy());
    proof {
        assert(layers_view(acc.cur_layers@) =~= layers_view(old_layers).push(d@));
        assert(acc.cur_sizes@ =~= sizes_of(layers_view(acc.cur_layers@)));
        lemma_sum_sizes_push(old_sizes, d@.param_len);
    }
}

/// Groups a layer list into the computational units of a mixed model,
/// allocating the parameters of every unit in host RAM.
pub fn build_models(layers: &Vec<LayerDesc>, param_store: &mut ParamStore) -> (r: Vec<Model>)
    requires
        old(param_store).wf(),
        !group_run_panics(layers_view(layers@), old(param_store)@),
        group_fits(layers_view(layers@), old(param_store)@),
    ensures
        final(param_store).wf(),
        models_view(r@) == group_result(layers_view(layers@), old(param_store)@).models,
        final(param_store)@ == group_result(layers_view(layers@), old(param_store)@).store,
{
    let ghost all = layers_view(layers@);
    let ghost st0 = param_store@;
    let mut acc = GroupAcc {
        models: Vec::new(),
        cur_layers: Vec::new(),
        cur_sizes: Vec::new(),
        active_ports: None,
        current_branch: None,
        current_stream_indices: None,
    };
    proof {
        assert(all.take(0) =~= Seq::<LayerSpec>::empty());
        assert(models_view(acc.models@) =~= Seq::<ModelSpec>::empty());
        assert(layers_view(acc.cur_layers@) =~= Seq::<LayerSpec>::empty());
        assert(acc.cur_sizes@ =~= sizes_of(layers_view(acc.cur_layers@)));
        assert(sum_sizes(acc.cur_sizes@) == 0);
        assert(requested_params(all.take(0)) == 0);
        lemma_requested_prefix(all, 0);
    }
    let n = layers.len();
    let mut i: usize = 0;
    while i < n
        invariant
            n == layers@.len(),
            all == layers_view(layers@),
            st0 == old(param_store)@,
            !group_run_panics(all, st0),
            i <= n,
            acc.inv(),
            param_store.wf(),
            budget(&acc, param_store@, st0, all.take(i as int), all),
            acc.model(param_store@) == group_run(all.take(i as int), st0),
        decreases n - i,
    {
        let d = &layers[i];
        proof {
            assert(all.take(i + 1).drop_last() =~= all.take(i as int));
            assert(all.take(i + 1).last() == d@);
            if group_run_panics(all.take(i + 1), st0) {
                lemma_group_panics_prefix(all, st0, i + 1);
            }
        }
        match d.kind {
            LayerKind::CombinerConnector => {
                proof {
                    lemma_take_push(all, i as int);
                    crate::builder_laws::lemma_prefix_push(all.take(i as int), d@);
                }
            },
            LayerKind::SplitterConnector => group_marker_exec(&mut acc, param_store, d, Ghost(st0), Ghost(all), Ghost(i as int)),
            LayerKind::Splitter | LayerKind::Combiner => group_connector_exec(&mut acc, param_store, d, Ghost(st0), Ghost(all), Ghost(i as int)),
            LayerKind::Unsqueeze | LayerKind::ReduceMean => group_dim_exec(&mut acc, param_store, d, Ghost(st0), Ghost(all), Ghost(i as int)),
            _ => group_layer_exec(&mut acc, param_store, d, Ghost(st0), Ghost(all), Ghost(i as int)),
        }
        i = i + 1;
    }
    proof {
        assert(all.take(n as int) =~= all);
    }
    group_finalize_exec(&mut acc, param_store, Ghost(st0), Ghost(all), Ghost(all));
    acc.models
}

} // verus!

verus! {

/// Every parameter slice of every unit points to a buffer of the store.
pub open spec fn slices_in_store(models: Seq<ModelSpec>, store: StoreSpec) -> bool {
    forall|k: int, j: int|
        0 <= k < models.len() && 0 <= j < model_slices(models[k]).len() ==> (#[trigger] model_slices(
            models[k],
        )[j]).buffer_idx < store.buffers.len()
}

spec fn gpending(m: GroupModel) -> nat {
    if m.cur_layers.len() > 0 {
        1
    } else {
        0
    }
}

/// The layers of the processors among the units, concatenated in order.
pub open spec fn processor_layers(models: Seq<ModelSpec>) -> Seq<LayerSpec>
    decreases models.len(),
{
    if models.len() == 0 {
        Seq::empty()
    } else {
        match models.last() {
            ModelSpec::UniversalProcessor { layers, .. } => processor_layers(models.drop_last()) + layers,
            _ => processor_layers(models.drop_last()),
        }
    }
}

/// Number of units that are not processors.
pub open spec fn non_processor_count(models: Seq<ModelSpec>) -> nat
    decreases models.len(),
{
    if models.len() == 0 {
        0
    } else if models.last() is UniversalProcessor {
        non_processor_count(models.drop_last())
    } else {
        non_processor_count(models.drop_last()) + 1
    }
}

/// The kinds of the units that are not processors, in unit order.
pub open spec fn unit_topology_kinds(models: Seq<ModelSpec>) -> Seq<LayerKind>
    decreases models.len(),
{
    if models.len() == 0 {
        Seq::empty()
    } else {
        let rest = unit_topology_kinds(models.drop_last());
        match models.last() {
            ModelSpec::UniversalProcessor { .. } => rest,
            ModelSpec::Splitter { .. } => rest.push(LayerKind::Splitter),
            ModelSpec::Combiner { .. } => rest.push(LayerKind::Combiner),
            ModelSpec::Unsqueeze { .. } => rest.push(LayerKind::Unsqueeze),
            ModelSpec::ReduceMean { .. } => rest.push(LayerKind::ReduceMean),
            ModelSpec::SplitterConnector { .. } => rest.push(LayerKind::SplitterConnector),
            ModelSpec::CombinerConnector { .. } => rest.push(LayerKind::CombinerConnector),
        }
    }
}

/// The kinds of the splitter, combiner, unsqueeze and reduce-mean layers of a
/// list, in list order.
pub open spec fn topology_kinds(layers: Seq<LayerSpec>) -> Seq<LayerKind>
    decreases layers.len(),
{
    if layers.len() == 0 {
        Seq::empty()
    } else if is_topology_kind(layers.last().kind) {
        topology_kinds(layers.drop_last()).push(layers.last().kind)
    } else {
        topology_kinds(layers.drop_last())
    }
}

/// Every processor has one parameter slice per layer.
pub open spec fn one_slice_per_layer(models: Seq<ModelSpec>) -> bool {
    forall|k: int|
        0 <= k < models.len() ==> match #[trigger] models[k] {
            ModelSpec::UniversalProcessor { layers, slices, .. } => slices.len() == layers.len(),
            _ => true,
        }
}

proof fn lemma_units_push(models: Seq<ModelSpec>, u: ModelSpec)
    requires
        one_slice_per_layer(models),
        match u {
            ModelSpec::UniversalProcessor { layers, slices, .. } => slices.len() == layers.len(),
            _ => true,
        },
    ensures
        one_slice_per_layer(models.push(u)),
        unit_topology_kinds(models.push(u)) == match u {
            ModelSpec::UniversalProcessor { .. } => unit_topology_kinds(models),
            ModelSpec::Splitter { .. } => unit_topology_kinds(models).push(LayerKind::Splitter),
            ModelSpec::Combiner { .. } => unit_topology_kinds(models).push(LayerKind::Combiner),
            ModelSpec::Unsqueeze { .. } => unit_topology_kinds(models).push(LayerKind::Unsqueeze),
            ModelSpec::ReduceMean { .. } => unit_topology_kinds(models).push(LayerKind::ReduceMean),
            ModelSpec::SplitterConnector { .. } => unit_topology_kinds(models).push(LayerKind::SplitterConnector),
            ModelSpec::CombinerConnector { .. } => unit_topology_kinds(models).push(LayerKind::CombinerConnector),
        },
{
    assert(models.push(u).drop_last() =~= models);
    let t = models.push(u);
    assert forall|k: int| 0 <= k < t.len() implies match #[trigger] t[k] {
        ModelSpec::UniversalProcessor { layers, slices, .. } => slices.len() == layers.len(),
        _ => true,
    } by {
        if k < models.len() {
            assert(t[k] == models[k]);
        }
    }
}

proof fn lemma_topology_kinds_push(prefix: Seq<LayerSpec>, d: LayerSpec)
    ensures
        topology_kinds(prefix.push(d)) == if is_topology_kind(d.kind) {
            topology_kinds(prefix).push(d.kind)
        } else {
            topology_kinds(prefix)
        },
{
    assert(prefix.push(d).drop_last() =~= prefix);
}

proof fn lemma_models_push(models: Seq<ModelSpec>, u: ModelSpec)
    ensures
        processor_layers(models.push(u)) == match u {
            ModelSpec::UniversalProcessor { layers, .. } => processor_layers(models) + layers,
            _ => processor_layers(models),
        },
        non_processor_count(models.push(u)) == non_processor_count(models) + (if u is UniversalProcessor {
            0nat
        } else {
            1nat
        }),
{
    assert(models.push(u).drop_last() =~= models);
}

/// What holds of the grouping state after a prefix of a layer list that fits.
spec fn group_inv(m: GroupModel, done: Seq<LayerSpec>, all: Seq<LayerSpec>, st0: StoreSpec) -> bool {
    &&& processor_layers(m.models) + m.cur_layers == processing_layers(done)
    &&& distinct_unit_buffers(m.models)
    &&& one_slice_per_layer(m.models)
    &&& unit_topology_kinds(m.models) == topology_kinds(done)
    &&& non_processor_count(m.models) == topology_count(done)
    &&& slices_in_store(m.models, m.store)
    &&& total_len(m.store.buffers) + sum_sizes(sizes_of(m.cur_layers)) == total_len(st0.buffers)
        + requested_params(done)
    &&& m.store.next_id + 2 * gpending(m) <= st0.next_id + 2 * done.len()
    &&& m.store.buffers.len() + gpending(m) <= st0.buffers.len() + done.len()
    &&& requested_params(done) <= requested_params(all)
    &&& done.len() <= all.len()
    &&& group_fits(all, st0)
}

/// True when no two units keep their parameters in the same buffer.
pub open spec fn distinct_unit_buffers(models: Seq<ModelSpec>) -> bool {
    forall|a: int, b: int|
        0 <= a < models.len() && 0 <= b < models.len() && a != b && model_slices(models[a]).len() > 0
            && model_slices(models[b]).len() > 0 ==> #[trigger] model_slices(models[a])[0].buffer_idx
            != #[trigger] model_slices(models[b])[0].buffer_idx
}

proof fn lemma_push_fresh_unit(models: Seq<ModelSpec>, st: StoreSpec, u: ModelSpec)
    requires
        slices_in_store(models, st),
        distinct_unit_buffers(models),
        model_slices(u).len() > 0 ==> model_slices(u)[0].buffer_idx == st.buffers.len(),
    ensures
        distinct_unit_buffers(models.push(u)),
{
    let t = models.push(u);
    assert forall|a: int, b: int|
        0 <= a < t.len() && 0 <= b < t.len() && a != b && model_slices(t[a]).len() > 0
            && model_slices(t[b]).len() > 0 implies #[trigger] model_slices(t[a])[0].buffer_idx
            != #[trigger] model_slices(t[b])[0].buffer_idx by {
        if a < models.len() {
            assert(t[a] == models[a]);
            assert(model_slices(models[a])[0].buffer_idx < st.buffers.len());
        }
        if b < models.len() {
            assert(t[b] == models[b]);
            assert(model_slices(models[b])[0].buffer_idx < st.buffers.len());
        }
    }
}

proof fn lemma_alloc_keeps_slices(models: Seq<ModelSpec>, st: StoreSpec, sizes: Seq<usize>)
    requires
        slices_in_store(models, st),
        alloc_fits(st, sizes),
    ensures
        slices_in_store(models, alloc_spec(st, sizes, MemoryDeviceKind::HostRam).0),
{
}

proof fn lemma_push_keeps_slices(models: Seq<ModelSpec>, st: StoreSpec, m: ModelSpec)
    requires
        slices_in_store(models, st),
        forall|j: int| 0 <= j < model_slices(m).len() ==> (#[trigger] model_slices(m)[j]).buffer_idx
            < st.buffers.len(),
    ensures
        slices_in_store(models.push(m), st),
{
    let t = models.push(m);
    assert forall|k: int, j: int|
        0 <= k < t.len() && 0 <= j < model_slices(t[k]).len() implies (#[trigger] model_slices(
            t[k],
        )[j]).buffer_idx < st.buffers.len() by {
        if k < models.len() {
            assert(t[k] == models[k]);
        }
    }
}

proof fn lemma_group_finalize_inv(m: GroupModel, done: Seq<LayerSpec>, all: Seq<LayerSpec>, st0: StoreSpec)
    requires
        group_inv(m, done, all, st0),
    ensures
        group_inv(group_finalize(m), done, all, st0),
        group_finalize(m).cur_layers.len() == 0,
{
    if m.cur_layers.len() > 0 {
        let sizes = sizes_of(m.cur_layers);
        assert(alloc_fits(m.store, sizes));
        let f = group_finalize(m);
        lemma_total_len_push(m.store.buffers, new_buffer(m.store, sizes, MemoryDeviceKind::HostRam));
        lemma_alloc_keeps_slices(m.models, m.store, sizes);
        lemma_push_keeps_slices(m.models, f.store, f.models.last());
        assert(f.models == m.models.push(f.models.last()));
        lemma_push_fresh_unit(m.models, m.store, f.models.last());
        lemma_units_push(m.models, f.models.last());
        assert(sizes_of(f.cur_layers) =~= Seq::<usize>::empty());
        lemma_models_push(m.models, f.models.last());
        assert(processor_layers(m.models) + m.cur_layers + Seq::<LayerSpec>::empty()
            =~= processor_layers(m.models) + m.cur_layers);
    }
}

proof fn lemma_group_step_inv(m: GroupModel, all: Seq<LayerSpec>, i: int, st0: StoreSpec)
    requires
        0 <= i < all.len(),
        group_inv(m, all.take(i), all, st0),
    ensures
        group_inv(group_step(m, all[i]), all.take(i + 1), all, st0),
{
    let d = all[i];
    lemma_take_push(all, i);
    crate::builder_laws::lemma_prefix_push(all.take(i), d);
    lemma_topology_kinds_push(all.take(i), d);
    let done1 = all.take(i + 1);
    if d.kind is CombinerConnector {
    } else if is_processing_kind(d.kind) {
        let r = group_step(m, d);
        assert(sizes_of(r.cur_layers) =~= sizes_of(m.cur_layers).push(d.param_len));
        lemma_sum_sizes_push(sizes_of(m.cur_layers), d.param_len);
        assert(processor_layers(r.models) + r.cur_layers =~= (processor_layers(m.models)
            + m.cur_layers).push(d));
    } else {
        lemma_group_finalize_inv(m, all.take(i), all, st0);
        let m1 = group_finalize(m);
        if d.kind is Splitter || d.kind is Combiner {
            let sizes = seq![d.param_len];
            crate::builder_laws::lemma_single_size(d.param_len);
            assert(alloc_fits(m1.store, sizes));
            lemma_total_len_push(m1.store.buffers, new_buffer(m1.store, sizes, MemoryDeviceKind::HostRam));
            lemma_alloc_keeps_slices(m1.models, m1.store, sizes);
            let r = group_step(m, d);
            assert(r.models == m1.models.push(r.models.last()));
            assert(model_slices(r.models.last()) =~= seq![alloc_spec(m1.store, sizes, MemoryDeviceKind::HostRam).1[0]]);
            lemma_push_keeps_slices(m1.models, r.store, r.models.last());
            lemma_push_fresh_unit(m1.models, m1.store, r.models.last());
            lemma_units_push(m1.models, r.models.last());
            lemma_models_push(m1.models, r.models.last());
        } else if d.kind is Unsqueeze || d.kind is ReduceMean {
            let r = group_step(m, d);
            assert(r.models == m1.models.push(r.models.last()));
            lemma_push_fresh_unit(m1.models, m1.store, r.models.last());
            lemma_units_push(m1.models, r.models.last());
            lemma_push_keeps_slices(m1.models, r.store, r.models.last());
            lemma_models_push(m1.models, r.models.last());
        }
    }
}

proof fn lemma_group_run_inv(all: Seq<LayerSpec>, i: int, st0: StoreSpec)
    requires
        0 <= i <= all.len(),
        group_fits(all, st0),
    ensures
        group_inv(group_run(all.take(i), st0), all.take(i), all, st0),
    decreases i,
{
    if i == 0 {
        assert(all.take(0) =~= Seq::<LayerSpec>::empty());
        assert(sizes_of(Seq::<LayerSpec>::empty()) =~= Seq::<usize>::empty());
        lemma_requested_prefix(all, 0);
        assert(processor_layers(Seq::<ModelSpec>::empty()) + Seq::<LayerSpec>::empty()
            =~= Seq::<LayerSpec>::empty());
    } else {
        lemma_group_run_inv(all, i - 1, st0);
        assert(all.take(i).drop_last() =~= all.take(i - 1));
        assert(all.take(i).last() == all[i - 1]);
        lemma_group_step_inv(group_run(all.take(i - 1), st0), all, i - 1, st0);
    }
}

/// Every parameter slice of every unit of a mixed model points to a buffer
/// of the parameter store the units were built with.
pub proof fn law_models_slices_in_store(layers: Seq<LayerSpec>, store: StoreSpec)
    requires
        group_fits(layers, store),
    ensures
        slices_in_store(group_result(layers, store).models, group_result(layers, store).store),
{
    lemma_group_run_inv(layers, layers.len() as int, store);
    assert(layers.take(layers.len() as int) =~= layers);
    lemma_group_finalize_inv(group_run(layers, store), layers, layers, store);
}

proof fn lemma_group_result_inv(layers: Seq<LayerSpec>, store: StoreSpec)
    requires
        group_fits(layers, store),
    ensures
        group_inv(group_result(layers, store), layers, layers, store),
        group_result(layers, store).cur_layers.len() == 0,
{
    lemma_group_run_inv(layers, layers.len() as int, store);
    assert(layers.take(layers.len() as int) =~= layers);
    lemma_group_finalize_inv(group_run(layers, store), layers, layers, store);
}

/// The processors of a mixed model, read in order, hold every ordinary
/// layer exactly once, in the order of the layer list.
pub proof fn law_group_keeps_layers_in_order(layers: Seq<LayerSpec>, store: StoreSpec)
    requires
        group_fits(layers, store),
    ensures
        processor_layers(group_result(layers, store).models) == processing_layers(layers),
{
    lemma_group_result_inv(layers, store);
    let r = group_result(layers, store);
    assert(processor_layers(r.models) + r.cur_layers =~= processor_layers(r.models));
}

/// Every splitter, combiner, unsqueeze and reduce-mean layer becomes one unit
/// of its own; the stream markers create none.
pub proof fn law_group_one_unit_per_topology_layer(layers: Seq<LayerSpec>, store: StoreSpec)
    requires
        group_fits(layers, store),
    ensures
        non_processor_count(group_result(layers, store).models) == topology_count(layers),
{
    lemma_group_result_inv(layers, store);
}

/// Grouping allocates exactly the parameters the ordinary layers and the
/// learnable connectors ask for.
pub proof fn law_group_allocates_requested_params(layers: Seq<LayerSpec>, store: StoreSpec)
    requires
        group_fits(layers, store),
    ensures
        total_len(group_result(layers, store).store.buffers) == total_len(store.buffers)
            + requested_params(layers),
{
    lemma_group_result_inv(layers, store);
    assert(sizes_of(group_result(layers, store).cur_layers) =~= Seq::<usize>::empty());
}

/// True when no unit of the list is a stream marker.
pub open spec fn no_marker_units(models: Seq<ModelSpec>) -> bool {
    forall|k: int|
        0 <= k < models.len() ==> !(#[trigger] models[k] is SplitterConnector) && !(models[k] is CombinerConnector)
}

proof fn lemma_run_no_marker_units(layers: Seq<LayerSpec>, store: StoreSpec)
    ensures
        no_marker_units(group_run(layers, store).models),
    decreases layers.len(),
{
    if layers.len() > 0 {
        lemma_run_no_marker_units(layers.drop_last(), store);
        let m = group_run(layers.drop_last(), store);
        let m1 = group_finalize(m);
        assert(no_marker_units(m1.models));
    }
}

/// The stream markers of a layer list only steer the stream indices: no
/// unit that grouping builds is a marker.
pub proof fn law_group_builds_no_marker_units(layers: Seq<LayerSpec>, store: StoreSpec)
    ensures
        no_marker_units(group_result(layers, store).models),
{
    lemma_run_no_marker_units(layers, store);
}

/// Every unit that grouping builds keeps its parameters in a buffer of its
/// own.
pub proof fn law_group_units_own_their_buffers(layers: Seq<LayerSpec>, store: StoreSpec)
    requires
        group_fits(layers, store),
    ensures
        distinct_unit_buffers(group_result(layers, store).models),
{
    lemma_group_result_inv(layers, store);
}

/// The units that grouping builds follow the layer list: every processor
/// has one parameter slice per layer, and the splitter, combiner, unsqueeze
/// and reduce-mean units come one per such layer, in the order of the list.
pub proof fn law_group_unit_structure(layers: Seq<LayerSpec>, store: StoreSpec)
    requires
        group_fits(layers, store),
    ensures
        one_slice_per_layer(group_result(layers, store).models),
        unit_topology_kinds(group_result(layers, store).models) == topology_kinds(layers),
{
    lemma_group_result_inv(layers, store);
}

} // verus!

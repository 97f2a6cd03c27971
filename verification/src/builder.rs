use vstd::prelude::*;
use crate::buffer::MemoryDeviceKind;
use crate::graph::{SegmentKindSpec, SegmentKindV2, SegmentSpec, SegmentV2, segments_view};
use crate::jobs::{ConnectorOpKind, ConnectorSpec, DimOpKind, copy_layers, layers_view};
use crate::layer::{LayerDesc, LayerKind, LayerSpec, copy_dims, copy_opt_dims, is_processing_kind, opt_dims_view};
use crate::param_store::{ParamSlice, ParamStore, StoreSpec, alloc_spec};
use crate::text::{count_message, decimal, push_decimal};

verus! {

/// Position of the first occurrence of `x` in `s`.
pub open spec fn first_pos(s: Seq<usize>, x: usize) -> Option<int>
    decreases s.len(),
{
    if s.len() == 0 {
        None
    } else if s[0] == x {
        Some(0)
    } else {
        match first_pos(s.drop_first(), x) {
            Some(i) => Some(i + 1),
            None => None,
        }
    }
}

/// The state of segment building after a prefix of the layer list.
///
/// `active_ports` holds the sizes of the active streams (`None`: a single stream),
/// `current_branch` the index of the active branch, and `current_stream_indices`
/// the stream indices of the universal segment being accumulated.
pub struct BuildModel {
    pub failed: bool,
    pub segments: Seq<SegmentSpec>,
    pub cur_layers: Seq<LayerSpec>,
    pub cur_input: Seq<usize>,
    pub cur_output: Seq<usize>,
    pub active_ports: Option<Seq<usize>>,
    pub current_branch: Option<usize>,
    pub current_stream_indices: Option<Seq<usize>>,
    pub store: StoreSpec,
    pub error: Seq<char>,
}

/// Parameter sizes of a list of layers.
pub open spec fn sizes_of(layers: Seq<LayerSpec>) -> Seq<usize> {
    layers.map_values(|l: LayerSpec| l.param_len)
}

/// The state before the first layer.
pub open spec fn initial_model(store: StoreSpec) -> BuildModel {
    BuildModel {
        failed: false,
        segments: Seq::empty(),
        cur_layers: Seq::empty(),
        cur_input: Seq::empty(),
        cur_output: Seq::empty(),
        active_ports: None,
        current_branch: None,
        current_stream_indices: None,
        store,
        error: Seq::empty(),
    }
}

/// The refusal of a universal segment whose parameter slices do not match
/// its layers.
pub open spec fn slices_count_message(slices: nat, layers: nat) -> Seq<char> {
    "GraphV2::build_segments: slices count ("@ + decimal(slices) + ") != layers count ("@ + decimal(layers)
        + ")"@
}

/// The start of the refusal of a splitter without one input stream.
pub open spec fn splitter_inputs_message() -> Seq<char> {
    "GraphV2::build_segments: Splitter expects exactly 1 input stream, got "@
}

/// The start of the refusal of a splitter without two output streams.
pub open spec fn splitter_outputs_message() -> Seq<char> {
    "GraphV2::build_segments: Splitter expects exactly 2 output streams, got "@
}

/// The start of the refusal of a combiner without two input streams.
pub open spec fn combiner_inputs_message() -> Seq<char> {
    "GraphV2::build_segments: Combiner expects exactly 2 input streams, got "@
}

/// The start of the refusal of a combiner without one output stream.
pub open spec fn combiner_outputs_message() -> Seq<char> {
    "GraphV2::build_segments: Combiner expects exactly 1 output stream, got "@
}

/// Closes the universal segment being accumulated, if any.
pub open spec fn finalize(m: BuildModel, kind: MemoryDeviceKind) -> BuildModel {
    if m.failed || m.cur_layers.len() == 0 {
        m
    } else {
        let (st, slices) = alloc_spec(m.store, sizes_of(m.cur_layers), kind);
        if slices.len() != m.cur_layers.len() {
            BuildModel { failed: true, store: st, error: slices_count_message(slices.len(), m.cur_layers.len()), ..m }
        } else {
            BuildModel {
                segments: m.segments.push(
                    SegmentSpec {
                        index: m.segments.len() as usize,
                        kind: SegmentKindSpec::Universal { layers: m.cur_layers, slices },
                        input: m.cur_input,
                        output: m.cur_output,
                        stream_count: 1,
                        stream_indices: m.current_stream_indices,
                    },
                ),
                cur_layers: Seq::empty(),
                cur_input: Seq::empty(),
                cur_output: Seq::empty(),
                current_stream_indices: None,
                store: st,
                ..m
            }
        }
    }
}

/// Effect of a stream marker that opens a branch.
pub open spec fn mark_branch(m: BuildModel, d: LayerSpec) -> BuildModel {
    let dims = if d.output.len() > 0 {
        d.output
    } else {
        d.input
    };
    if dims.len() == 1 {
        match m.active_ports {
            Some(ports) => BuildModel {
                current_branch: Some(
                    match first_pos(ports, dims[0]) {
                        Some(p) => p as usize,
                        None => 0,
                    },
                ),
                ..m
            },
            None => BuildModel { active_ports: Some(seq![dims[0]]), current_branch: Some(0), ..m },
        }
    } else {
        BuildModel { active_ports: Some(dims), current_branch: None, ..m }
    }
}

/// Effect of a learnable splitter (after the pending segment is closed).
pub open spec fn add_splitter(m: BuildModel, d: LayerSpec, kind: MemoryDeviceKind) -> BuildModel {
    if d.input.len() != 1 {
        BuildModel { failed: true, error: splitter_inputs_message() + decimal(d.input.len()), ..m }
    } else if d.output.len() != 2 {
        BuildModel { failed: true, error: splitter_outputs_message() + decimal(d.output.len()), ..m }
    } else {
        let (st, slices) = alloc_spec(m.store, seq![d.param_len], kind);
        if slices.len() == 0 {
            BuildModel { failed: true, store: st, error: "GraphV2::build_segments: Splitter param alloc failed"@, ..m }
        } else {
            BuildModel {
                active_ports: Some(d.output),
                current_branch: Some(0),
                store: st,
                segments: m.segments.push(
                    SegmentSpec {
                        index: m.segments.len() as usize,
                        kind: SegmentKindSpec::Connector {
                            conn: ConnectorSpec::Splitter {
                                input_dim: d.input[0],
                                output_dims: d.output,
                                slice: slices[0],
                            },
                        },
                        input: d.input,
                        output: d.output,
                        stream_count: 2,
                        stream_indices: None,
                    },
                ),
                ..m
            }
        }
    }
}

/// Effect of a learnable combiner (after the pending segment is closed).
pub open spec fn add_combiner(m: BuildModel, d: LayerSpec, kind: MemoryDeviceKind) -> BuildModel {
    if d.input.len() != 2 {
        BuildModel { failed: true, error: combiner_inputs_message() + decimal(d.input.len()), ..m }
    } else if d.output.len() != 1 {
        BuildModel { failed: true, error: combiner_outputs_message() + decimal(d.output.len()), ..m }
    } else {
        let (st, slices) = alloc_spec(m.store, seq![d.param_len], kind);
        if slices.len() == 0 {
            BuildModel { failed: true, store: st, error: "GraphV2::build_segments: Combiner param alloc failed"@, ..m }
        } else {
            BuildModel {
                active_ports: Some(seq![d.output[0]]),
                current_branch: None,
                store: st,
                segments: m.segments.push(
                    SegmentSpec {
                        index: m.segments.len() as usize,
                        kind: SegmentKindSpec::Connector {
                            conn: ConnectorSpec::Combiner {
                                input_dim: d.input[0],
                                output_dim: d.output[0],
                                slice: slices[0],
                            },
                        },
                        input: d.input,
                        output: d.output,
                        stream_count: 1,
                        stream_indices: None,
                    },
                ),
                ..m
            }
        }
    }
}

/// Effect of a dimension change (after the pending segment is closed).
pub open spec fn add_dim_op(m: BuildModel, d: LayerSpec, unsqueeze: bool) -> BuildModel {
    BuildModel {
        segments: m.segments.push(
            SegmentSpec {
                index: m.segments.len() as usize,
                kind: SegmentKindSpec::DimOp { unsqueeze, dims: d.output },
                input: d.input,
                output: d.output,
                stream_count: 1,
                stream_indices: m.current_stream_indices,
            },
        ),
        ..m
    }
}

/// The branch chosen for a universal segment that starts with a layer whose
/// first input stream has size `in_dim`.
pub open spec fn chosen_branch(ports: Seq<usize>, branch: Option<usize>, in_dim: usize) -> usize {
    match first_pos(ports, in_dim) {
        Some(p) => p as usize,
        None => match branch {
            Some(b) => b,
            None => 0,
        },
    }
}

/// Effect of an ordinary layer: it joins the universal segment being accumulated.
pub open spec fn add_layer(m: BuildModel, d: LayerSpec) -> BuildModel {
    let m1 = if m.cur_layers.len() == 0 {
        match m.active_ports {
            Some(ports) => {
                let b = chosen_branch(ports, m.current_branch, d.input[0]);
                BuildModel {
                    cur_input: d.input,
                    current_branch: Some(b),
                    current_stream_indices: Some(seq![b]),
                    ..m
                }
            },
            None => BuildModel { cur_input: d.input, current_stream_indices: None, ..m },
        }
    } else {
        m
    };
    BuildModel { cur_layers: m1.cur_layers.push(d), cur_output: d.output, ..m1 }
}

/// One step of segment building.
pub open spec fn step(m: BuildModel, d: LayerSpec, kind: MemoryDeviceKind) -> BuildModel {
    if m.failed {
        m
    } else {
        match d.kind {
            LayerKind::CombinerConnector => m,
            LayerKind::SplitterConnector => {
                let m1 = finalize(m, kind);
                if m1.failed {
                    m1
                } else {
                    mark_branch(m1, d)
                }
            },
            LayerKind::Splitter => {
                let m1 = finalize(m, kind);
                if m1.failed {
                    m1
                } else {
                    add_splitter(m1, d, kind)
                }
            },
            LayerKind::Combiner => {
                let m1 = finalize(m, kind);
                if m1.failed {
                    m1
                } else {
                    add_combiner(m1, d, kind)
                }
            },
            LayerKind::Unsqueeze => {
                let m1 = finalize(m, kind);
                if m1.failed {
                    m1
                } else {
                    add_dim_op(m1, d, true)
                }
            },
            LayerKind::ReduceMean => {
                let m1 = finalize(m, kind);
                if m1.failed {
                    m1
                } else {
                    add_dim_op(m1, d, false)
                }
            },
            _ => add_layer(m, d),
        }
    }
}

/// True when the step reads the first input stream of a layer that has none.
pub open spec fn step_panics(m: BuildModel, d: LayerSpec) -> bool {
    &&& !m.failed
    &&& is_processing_kind(d.kind)
    &&& m.cur_layers.len() == 0
    &&& m.active_ports is Some
    &&& d.input.len() == 0
}

/// The state after all the given layers.
pub open spec fn run(layers: Seq<LayerSpec>, m0: BuildModel, kind: MemoryDeviceKind) -> BuildModel
    decreases layers.len(),
{
    if layers.len() == 0 {
        m0
    } else {
        step(run(layers.drop_last(), m0, kind), layers.last(), kind)
    }
}

/// True when building panics on some layer of the list.
pub open spec fn run_panics(layers: Seq<LayerSpec>, m0: BuildModel, kind: MemoryDeviceKind) -> bool
    decreases layers.len(),
{
    layers.len() > 0 && (run_panics(layers.drop_last(), m0, kind) || step_panics(
        run(layers.drop_last(), m0, kind),
        layers.last(),
    ))
}

/// The final state of building segments from a layer list.
pub open spec fn build_result(layers: Seq<LayerSpec>, store: StoreSpec, kind: MemoryDeviceKind) -> BuildModel {
    finalize(run(layers, initial_model(store), kind), kind)
}

/// The inputs on which building segments does not panic.
pub open spec fn build_defined(layers: Seq<LayerSpec>, store: StoreSpec, kind: MemoryDeviceKind) -> bool {
    !run_panics(layers, initial_model(store), kind)
}

/// Exec state of segment building.
struct Acc {
    segments: Vec<SegmentV2>,
    cur_layers: Vec<LayerDesc>,
    cur_sizes: Vec<usize>,
    cur_input: Vec<usize>,
    cur_output: Vec<usize>,
    active_ports: Option<Vec<usize>>,
    current_branch: Option<usize>,
    current_stream_indices: Option<Vec<usize>>,
}

spec fn pending(acc: &Acc) -> nat {
    if acc.cur_layers@.len() > 0 {
        1
    } else {
        0
    }
}

impl Acc {
    spec fn model(&self, store: StoreSpec) -> BuildModel {
        BuildModel {
            failed: false,
            segments: segments_view(self.segments@),
            cur_layers: layers_view(self.cur_layers@),
            cur_input: self.cur_input@,
            cur_output: self.cur_output@,
            active_ports: opt_dims_view(&self.active_ports),
            current_branch: self.current_branch,
            current_stream_indices: opt_dims_view(&self.current_stream_indices),
            store,
            error: Seq::empty(),
        }
    }

    spec fn inv(&self) -> bool {
        &&& self.cur_sizes@ == sizes_of(layers_view(self.cur_layers@))
    }
}

/// Position of the first occurrence of `x`.
pub(crate) fn position_of(s: &Vec<usize>, x: usize) -> (r: Option<usize>)
    ensures
        match first_pos(s@, x) {
            Some(p) => r == Some(p as usize),
            None => r is None,
        },
{
    let mut i: usize = 0;
    assert(s@.subrange(0, s@.len() as int) =~= s@);
    while i < s.len()
        invariant
            i <= s.len(),
            forall|j: int| 0 <= j < i ==> s@[j] != x,
            first_pos(s@, x) == match first_pos(s@.subrange(i as int, s@.len() as int), x) {
                Some(p) => Some(p + i),
                None => None::<int>,
            },
        decreases s.len() - i,
    {
        let ghost t = s@.subrange(i as int, s@.len() as int);
        assert(t[0] == s@[i as int]);
        assert(t.drop_first() =~= s@.subrange(i + 1, s@.len() as int));
        if s[i] == x {
            return Some(i);
        }
        i = i + 1;
    }
    assert(s@.subrange(i as int, s@.len() as int).len() == 0);
    None
}

/// Closes the universal segment being accumulated, if any.
fn finalize_universal(acc: &mut Acc, store: &mut ParamStore, kind: MemoryDeviceKind) -> (r: Result<(), String>)
    requires
        old(acc).inv(),
        old(store).wf(),
        old(acc).cur_layers@.len() > 0 ==> old(acc).segments@.len() < usize::MAX,
    ensures
        final(acc).inv(),
        final(acc).segments@.len() <= old(acc).segments@.len() + pending(old(acc)),
        final(store).wf(),
        final(store)@ == finalize(old(acc).model(old(store)@), kind).store,
        r is Err <==> finalize(old(acc).model(old(store)@), kind).failed,
        r matches Err(e) ==> e@ == finalize(old(acc).model(old(store)@), kind).error,
        r is Ok ==> final(acc).model(final(store)@) == finalize(old(acc).model(old(store)@), kind),
{
    if acc.cur_layers.len() == 0 {
        return Ok(());
    }
    let slices = store.allocate_segment(&acc.cur_sizes, kind);
    if slices.len() != acc.cur_layers.len() {
        let mut m = "GraphV2::build_segments: slices count (".to_string();
        push_decimal(&mut m, slices.len());
        m.append(") != layers count (");
        push_decimal(&mut m, acc.cur_layers.len());
        m.append(")");
        assert(m@ =~= slices_count_message(slices@.len(), acc.cur_layers@.len()));
        return Err(m);
    }
    let mut layers: Vec<LayerDesc> = Vec::new();
    std::mem::swap(&mut layers, &mut acc.cur_layers);
    let mut input: Vec<usize> = Vec::new();
    std::mem::swap(&mut input, &mut acc.cur_input);
    let mut output: Vec<usize> = Vec::new();
    std::mem::swap(&mut output, &mut acc.cur_output);
    let indices = acc.current_stream_indices.take();
    let index = acc.segments.len();
    let seg = SegmentV2 {
        index,
        kind: SegmentKindV2::Universal { layers, slices },
        input_shape: input,
        output_shape: output,
        stream_count: 1,
        stream_indices: indices,
    };
    let ghost old_segs = acc.segments@;
    acc.segments.push(seg);
    acc.cur_sizes.clear();
    proof {
        assert(segments_view(acc.segments@) =~= segments_view(old_segs).push(seg@));
        assert(layers_view(acc.cur_layers@) =~= Seq::<LayerSpec>::empty());
        assert(acc.cur_sizes@ =~= sizes_of(layers_view(acc.cur_layers@)));
    }
    Ok(())
}

} // verus!

verus! {

/// A failed state is kept by every later step.
pub proof fn lemma_failed_absorbs(layers: Seq<LayerSpec>, m0: BuildModel, kind: MemoryDeviceKind, i: int)
    requires
        0 <= i <= layers.len(),
        run(layers.take(i), m0, kind).failed,
    ensures
        run(layers, m0, kind) == run(layers.take(i), m0, kind),
    decreases layers.len() - i,
{
    if i < layers.len() {
        assert(layers.take(i + 1).drop_last() =~= layers.take(i));
        lemma_failed_absorbs(layers, m0, kind, i + 1);
    } else {
        assert(layers.take(i) =~= layers);
    }
}

/// A panic on a prefix is a panic on the whole list.
pub proof fn lemma_panics_prefix(layers: Seq<LayerSpec>, m0: BuildModel, kind: MemoryDeviceKind, i: int)
    requires
        0 <= i <= layers.len(),
        run_panics(layers.take(i), m0, kind),
    ensures
        run_panics(layers, m0, kind),
    decreases layers.len() - i,
{
    if i < layers.len() {
        assert(layers.take(i + 1).drop_last() =~= layers.take(i));
        lemma_panics_prefix(layers, m0, kind, i + 1);
    } else {
        assert(layers.take(i) =~= layers);
    }
}


/// The common requirements of one building step.
spec fn step_pre(acc: &Acc, store: &ParamStore, bound: nat) -> bool {
    &&& acc.inv()
    &&& store.wf()
    &&& acc.segments@.len() + pending(acc) <= bound
    &&& bound < usize::MAX
}

/// The common guarantees of one building step whose model is `expected`.
spec fn step_post(
    acc: &Acc,
    store: &ParamStore,
    r: Result<(), String>,
    expected: BuildModel,
    bound: nat,
) -> bool {
    &&& store.wf()
    &&& store@ == expected.store
    &&& (r is Err <==> expected.failed)
    &&& r matches Err(e) ==> e@ == expected.error
    &&& r is Ok ==> {
        &&& acc.model(store@) == expected
        &&& acc.inv()
        &&& acc.segments@.len() + pending(acc) <= bound + 1
    }
}

fn step_marker(acc: &mut Acc, store: &mut ParamStore, d: &LayerDesc, kind: MemoryDeviceKind, Ghost(bound): Ghost<nat>) -> (r: Result<(), String>)
    requires
        step_pre(old(acc), old(store), bound),
        d@.kind is SplitterConnector,
    ensures
        step_post(final(acc), final(store), r, step(old(acc).model(old(store)@), d@, kind), bound),
{
    if let Err(e) = finalize_universal(acc, store, kind) {
        return Err(e);
    }
    let dims: Vec<usize> = if d.output_shape.streams.len() > 0 {
        copy_dims(&d.output_shape.streams)
    } else {
        copy_dims(&d.input_shape.streams)
    };
    if dims.len() == 1 {
        match &acc.active_ports {
            Some(ports) => {
                let pos = position_of(ports, dims[0]);
                acc.current_branch = Some(
                    match pos {
                        Some(p) => p,
                        None => 0,
                    },
                );
            },
            None => {
                let mut ports: Vec<usize> = Vec::new();
                ports.push(dims[0]);
                acc.active_ports = Some(ports);
                acc.current_branch = Some(0);
                proof {
                    assert(opt_dims_view(&acc.active_ports).unwrap() =~= seq![dims@[0]]);
                }
            },
        }
    } else {
        acc.active_ports = Some(dims);
        acc.current_branch = None;
    }
    Ok(())
}

fn step_splitter(acc: &mut Acc, store: &mut ParamStore, d: &LayerDesc, kind: MemoryDeviceKind, Ghost(bound): Ghost<nat>) -> (r: Result<(), String>)
    requires
        step_pre(old(acc), old(store), bound),
        d@.kind is Splitter,
    ensures
        step_post(final(acc), final(store), r, step(old(acc).model(old(store)@), d@, kind), bound),
{
    if let Err(e) = finalize_universal(acc, store, kind) {
        return Err(e);
    }
    if d.input_shape.streams.len() != 1 {
        return Err(
            count_message("GraphV2::build_segments: Splitter expects exactly 1 input stream, got ", d.input_shape.streams.len()),
        );
    }
    if d.output_shape.streams.len() != 2 {
        return Err(
            count_message("GraphV2::build_segments: Splitter expects exactly 2 output streams, got ", d.output_shape.streams.len()),
        );
    }
    let input_dim = d.input_shape.streams[0];
    let mut sizes: Vec<usize> = Vec::new();
    sizes.push(d.param_len());
    proof {
        assert(sizes@ =~= seq![d@.param_len]);
    }
    let slices = store.allocate_segment(&sizes, kind);
    if slices.len() == 0 {
        return Err("GraphV2::build_segments: Splitter param alloc failed".to_string());
    }
    let slice = slices[0];
    acc.active_ports = Some(copy_dims(&d.output_shape.streams));
    acc.current_branch = Some(0);
    let index = acc.segments.len();
    let seg = SegmentV2 {
        index,
        kind: SegmentKindV2::Connector {
            kind: ConnectorOpKind::Splitter {
                input_dim,
                output_dims: copy_dims(&d.output_shape.streams),
                slice,
            },
        },
        input_shape: copy_dims(&d.input_shape.streams),
        output_shape: copy_dims(&d.output_shape.streams),
        stream_count: 2,
        stream_indices: None,
    };
    let ghost old_segs = acc.segments@;
    acc.segments.push(seg);
    proof {
        assert(segments_view(acc.segments@) =~= segments_view(old_segs).push(seg@));
    }
    Ok(())
}

fn step_combiner(acc: &mut Acc, store: &mut ParamStore, d: &LayerDesc, kind: MemoryDeviceKind, Ghost(bound): Ghost<nat>) -> (r: Result<(), String>)
    requires
        step_pre(old(acc), old(store), bound),
        d@.kind is Combiner,
    ensures
        step_post(final(acc), final(store), r, step(old(acc).model(old(store)@), d@, kind), bound),
{
    if let Err(e) = finalize_universal(acc, store, kind) {
        return Err(e);
    }
    if d.input_shape.streams.len() != 2 {
        return Err(
            count_message("GraphV2::build_segments: Combiner expects exactly 2 input streams, got ", d.input_shape.streams.len()),
        );
    }
    if d.output_shape.streams.len() != 1 {
        return Err(
            count_message("GraphV2::build_segments: Combiner expects exactly 1 output stream, got ", d.output_shape.streams.len()),
        );
    }
    let input_dim = d.input_shape.streams[0];
    let output_dim = d.output_shape.streams[0];
    let mut sizes: Vec<usize> = Vec::new();
    sizes.push(d.param_len());
    proof {
        assert(sizes@ =~= seq![d@.param_len]);
    }
    let slices = store.allocate_segment(&sizes, kind);
    if slices.len() == 0 {
        return Err("GraphV2::build_segments: Combiner param alloc failed".to_string());
    }
    let slice = slices[0];
    let mut ports: Vec<usize> = Vec::new();
    ports.push(output_dim);
    proof {
        assert(ports@ =~= seq![output_dim]);
    }
    acc.active_ports = Some(ports);
    acc.current_branch = None;
    let index = acc.segments.len();
    let seg = SegmentV2 {
        index,
        kind: SegmentKindV2::Connector {
            kind: ConnectorOpKind::Combiner { input_dim, output_dim, slice },
        },
        input_shape: copy_dims(&d.input_shape.streams),
        output_shape: copy_dims(&d.output_shape.streams),
        stream_count: 1,
        stream_indices: None,
    };
    let ghost old_segs = acc.segments@;
    acc.segments.push(seg);
    proof {
        assert(segments_view(acc.segments@) =~= segments_view(old_segs).push(seg@));
    }
    Ok(())
}

fn step_dim_op(acc: &mut Acc, store: &mut ParamStore, d: &LayerDesc, kind: MemoryDeviceKind, unsqueeze: bool, Ghost(bound): Ghost<nat>) -> (r: Result<(), String>)
    requires
        step_pre(old(acc), old(store), bound),
        (unsqueeze ==> d@.kind is Unsqueeze) && (!unsqueeze ==> d@.kind is ReduceMean),
    ensures
        step_post(final(acc), final(store), r, step(old(acc).model(old(store)@), d@, kind), bound),
{
    if let Err(e) = finalize_universal(acc, store, kind) {
        return Err(e);
    }
    let target_dims = copy_dims(&d.output_shape.streams);
    let op = if unsqueeze {
        DimOpKind::Unsqueeze(target_dims)
    } else {
        DimOpKind::ReduceMean(target_dims)
    };
    let index = acc.segments.len();
    let seg = SegmentV2 {
        index,
        kind: SegmentKindV2::DimOp { kind: op },
        input_shape: copy_dims(&d.input_shape.streams),
        output_shape: copy_dims(&d.output_shape.streams),
        stream_count: 1,
        stream_indices: copy_opt_dims(&acc.current_stream_indices),
    };
    let ghost old_segs = acc.segments@;
    acc.segments.push(seg);
    proof {
        assert(segments_view(acc.segments@) =~= segments_view(old_segs).push(seg@));
    }
    Ok(())
}

fn step_layer(acc: &mut Acc, store: &ParamStore, d: &LayerDesc, Ghost(kind): Ghost<MemoryDeviceKind>, Ghost(bound): Ghost<nat>)
    requires
        step_pre(old(acc), store, bound),
        !(old(acc).cur_layers@.len() == 0 && old(acc).active_ports is Some && d@.input.len() == 0),
        is_processing_kind(d@.kind),
    ensures
        final(acc).model(store@) == step(old(acc).model(store@), d@, kind),
        final(acc).inv(),
        final(acc).segments@.len() + pending(final(acc)) <= bound + 1,
{
    if acc.cur_layers.len() == 0 {
        acc.cur_input = copy_dims(&d.input_shape.streams);
        let indices = match &acc.active_ports {
            Some(ports) => {
                let in_dim = d.input_shape.streams[0];
                let pos = position_of(ports, in_dim);
                let b: usize = match pos {
                    Some(p) => p,
                    None => match acc.current_branch {
                        Some(b) => b,
                        None => 0,
                    },
                };
                acc.current_branch = Some(b);
                let mut idx: Vec<usize> = Vec::new();
                idx.push(b);
                proof {
                    assert(idx@ =~= seq![b]);
                }
                Some(idx)
            },
            None => None,
        };
        acc.current_stream_indices = indices;
    }
    acc.cur_sizes.push(d.param_len());
    let ghost old_layers = acc.cur_layers@;
    acc.cur_layers.push(d.copy());
    acc.cur_output = copy_dims(&d.output_shape.streams);
    proof {
        assert(layers_view(acc.cur_layers@) =~= layers_view(old_layers).push(d@));
        assert(acc.cur_sizes@ =~= sizes_of(layers_view(acc.cur_layers@)));
    }
}

/// Groups a list of layer descriptions into execution segments.
///
/// Consecutive ordinary layers form one universal segment whose parameters are
/// allocated by one call of `allocate_segment`; `Unsqueeze` and `ReduceMean`
/// become dimension segments; `Splitter` and `Combiner` become connector
/// segments with their own parameters; the stream markers `SplitterConnector`
/// and `CombinerConnector` create no segment and only steer the stream indices
/// of the segments that follow.
pub fn build_segments(
    layers_desc: &Vec<LayerDesc>,
    param_store: &mut ParamStore,
    param_memory_kind: MemoryDeviceKind,
) -> (r: Result<Vec<SegmentV2>, String>)
    requires
        old(param_store).wf(),
        build_defined(layers_view(layers_desc@), old(param_store)@, param_memory_kind),
    ensures
        final(param_store).wf(),
        final(param_store)@ == build_result(
            layers_view(layers_desc@),
            old(param_store)@,
            param_memory_kind,
        ).store,
        r is Err <==> build_result(layers_view(layers_desc@), old(param_store)@, param_memory_kind).failed,
        r matches Err(e) ==> e@ == build_result(layers_view(layers_desc@), old(param_store)@, param_memory_kind).error,
        r matches Ok(segs) ==> segments_view(segs@) == build_result(
            layers_view(layers_desc@),
            old(param_store)@,
            param_memory_kind,
        ).segments,
{
    let ghost lv = layers_view(layers_desc@);
    let ghost st0 = param_store@;
    let ghost m0 = initial_model(st0);
    let kind = param_memory_kind;
    let mut acc = Acc {
        segments: Vec::new(),
        cur_layers: Vec::new(),
        cur_sizes: Vec::new(),
        cur_input: Vec::new(),
        cur_output: Vec::new(),
        active_ports: None,
        current_branch: None,
        current_stream_indices: None,
    };
    proof {
        assert(lv.take(0) =~= Seq::<LayerSpec>::empty());
        assert(segments_view(acc.segments@) =~= Seq::<SegmentSpec>::empty());
        assert(layers_view(acc.cur_layers@) =~= Seq::<LayerSpec>::empty());
        assert(acc.cur_sizes@ =~= sizes_of(layers_view(acc.cur_layers@)));
    }
    let n = layers_desc.len();
    let mut i: usize = 0;
    while i < n
        invariant
            n == layers_desc@.len(),
            lv == layers_view(layers_desc@),
            m0 == initial_model(st0),
            st0 == old(param_store)@,
            kind == param_memory_kind,
            !run_panics(lv, m0, kind),
            i <= n,
            acc.inv(),
            param_store.wf(),
            acc.segments@.len() + pending(&acc) <= i,
            acc.model(param_store@) == run(lv.take(i as int), m0, kind),
        decreases n - i,
    {
        let d = &layers_desc[i];
        let ghost prev = run(lv.take(i as int), m0, kind);
        proof {
            assert(lv.take(i + 1).drop_last() =~= lv.take(i as int));
            assert(lv.take(i + 1).last() == d@);
            assert(run(lv.take(i + 1), m0, kind) == step(prev, d@, kind));
            if run_panics(lv.take(i + 1), m0, kind) {
                lemma_panics_prefix(lv, m0, kind, i + 1);
            }
            assert(!step_panics(prev, d@));
        }
        let res: Result<(), String> = match d.kind {
            LayerKind::CombinerConnector => Ok(()),
            LayerKind::SplitterConnector => step_marker(&mut acc, param_store, d, kind, Ghost(i as nat)),
            LayerKind::Splitter => step_splitter(&mut acc, param_store, d, kind, Ghost(i as nat)),
            LayerKind::Combiner => step_combiner(&mut acc, param_store, d, kind, Ghost(i as nat)),
            LayerKind::Unsqueeze => step_dim_op(&mut acc, param_store, d, kind, true, Ghost(i as nat)),
            LayerKind::ReduceMean => step_dim_op(&mut acc, param_store, d, kind, false, Ghost(i as nat)),
            _ => {
                step_layer(&mut acc, param_store, d, Ghost(kind), Ghost(i as nat));
                Ok(())
            },
        };
        match res {
            Err(e) => {
                proof {
                    lemma_failed_absorbs(lv, m0, kind, i + 1);
                }
                return Err(e);
            },
            Ok(()) => {},
        }
        i = i + 1;
    }
    proof {
        assert(lv.take(n as int) =~= lv);
    }
    let res = finalize_universal(&mut acc, param_store, kind);
    match res {
        Err(e) => Err(e),
        Ok(()) => Ok(acc.segments),
    }
}

} // verus!

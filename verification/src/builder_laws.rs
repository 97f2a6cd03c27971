use vstd::prelude::*;
use crate::buffer::MemoryDeviceKind;
use crate::builder::{BuildModel, build_defined, build_result, finalize, initial_model, run, run_panics, sizes_of, step, step_panics, add_layer, add_dim_op, add_splitter, add_combiner, mark_branch};
use crate::graph::{SegmentKindSpec, SegmentSpec};
use crate::jobs::ConnectorSpec;
use crate::layer::{LayerKind, LayerSpec, is_processing_kind};
use crate::param_store::{ParamSlice, StoreSpec, alloc_fits, alloc_spec, offset_of, segment_slices, sum_sizes, total_len};

verus! {

/// The ordinary layers of a list, in order.
pub open spec fn processing_layers(s: Seq<LayerSpec>) -> Seq<LayerSpec>
    decreases s.len(),
{
    if s.len() == 0 {
        Seq::empty()
    } else if is_processing_kind(s.last().kind) {
        processing_layers(s.drop_last()).push(s.last())
    } else {
        processing_layers(s.drop_last())
    }
}

/// True for the kinds that become a segment of their own.
pub open spec fn is_topology_kind(k: LayerKind) -> bool {
    k is Splitter || k is Combiner || k is Unsqueeze || k is ReduceMean
}

/// Number of layers that become a segment of their own.
pub open spec fn topology_count(s: Seq<LayerSpec>) -> nat
    decreases s.len(),
{
    if s.len() == 0 {
        0
    } else if is_topology_kind(s.last().kind) {
        topology_count(s.drop_last()) + 1
    } else {
        topology_count(s.drop_last())
    }
}

/// Number of parameters a list of layers asks for: ordinary layers and learnable connectors.
pub open spec fn requested_params(s: Seq<LayerSpec>) -> nat
    decreases s.len(),
{
    if s.len() == 0 {
        0
    } else if is_processing_kind(s.last().kind) || s.last().kind is Splitter
        || s.last().kind is Combiner {
        requested_params(s.drop_last()) + s.last().param_len as nat
    } else {
        requested_params(s.drop_last())
    }
}

/// The layers of the universal segments, concatenated in order.
pub open spec fn universal_layers(segs: Seq<SegmentSpec>) -> Seq<LayerSpec>
    decreases segs.len(),
{
    if segs.len() == 0 {
        Seq::empty()
    } else {
        match segs.last().kind {
            SegmentKindSpec::Universal { layers, .. } => universal_layers(segs.drop_last()) + layers,
            _ => universal_layers(segs.drop_last()),
        }
    }
}

/// Number of segments that are not universal.
pub open spec fn non_universal_count(segs: Seq<SegmentSpec>) -> nat
    decreases segs.len(),
{
    if segs.len() == 0 {
        0
    } else if segs.last().kind is Universal {
        non_universal_count(segs.drop_last())
    } else {
        non_universal_count(segs.drop_last()) + 1
    }
}

/// The stream indices of a segment name at most one stream.
pub open spec fn single_or_none(i: Option<Seq<usize>>) -> bool {
    match i {
        Some(s) => s.len() == 1,
        None => true,
    }
}

/// A universal segment has one slice per layer, laid out one after another in one buffer.
pub open spec fn slices_laid_out(seg: SegmentSpec) -> bool {
    match seg.kind {
        SegmentKindSpec::Universal { layers, slices } => {
            &&& layers.len() > 0
            &&& slices == segment_slices(sizes_of(layers), slices[0].buffer_idx)
        },
        _ => true,
    }
}

/// Shape facts that hold of every segment list built so far.
pub open spec fn segments_well_formed(segs: Seq<SegmentSpec>) -> bool {
    &&& forall|k: int| 0 <= k < segs.len() ==> (#[trigger] segs[k]).index == k
    &&& forall|k: int| 0 <= k < segs.len() ==> single_or_none((#[trigger] segs[k]).stream_indices)
    &&& forall|k: int| 0 <= k < segs.len() ==> slices_laid_out(#[trigger] segs[k])
}

/// The parameter slice of a learnable connector.
pub open spec fn connector_slice(c: ConnectorSpec) -> ParamSlice {
    match c {
        ConnectorSpec::Splitter { slice, .. } => slice,
        ConnectorSpec::Combiner { slice, .. } => slice,
    }
}

/// The parameters of a segment live in a buffer of the store; the buffer of a
/// universal segment holds exactly the parameters of its layers.
pub open spec fn seg_in_store(seg: SegmentSpec, st: StoreSpec) -> bool {
    match seg.kind {
        SegmentKindSpec::Universal { layers, slices } => {
            &&& slices.len() > 0
            &&& slices[0].buffer_idx < st.buffers.len()
            &&& st.buffers[slices[0].buffer_idx as int].len == sum_sizes(sizes_of(layers))
        },
        SegmentKindSpec::Connector { conn } => connector_slice(conn).buffer_idx < st.buffers.len(),
        SegmentKindSpec::DimOp { .. } => true,
    }
}

/// Every segment of the list has its parameters in the store.
pub open spec fn segments_in_store(segs: Seq<SegmentSpec>, st: StoreSpec) -> bool {
    forall|k: int| 0 <= k < segs.len() ==> seg_in_store(#[trigger] segs[k], st)
}

/// What holds of the building state after a prefix of the layers.
pub open spec fn build_inv(m: BuildModel, prefix: Seq<LayerSpec>, st0: StoreSpec) -> bool {
    !m.failed ==> {
        &&& universal_layers(m.segments) + m.cur_layers == processing_layers(prefix)
        &&& m.store.buffers.len() + (if m.cur_layers.len() > 0 { 1int } else { 0int })
            <= st0.buffers.len() + prefix.len()
        &&& st0.buffers.len() + prefix.len() <= usize::MAX ==> segments_in_store(m.segments, m.store)
        &&& non_universal_count(m.segments) == topology_count(prefix)
        &&& segments_well_formed(m.segments)
        &&& single_or_none(m.current_stream_indices)
        &&& m.cur_layers.len() == 0 ==> m.current_stream_indices is None
        &&& total_len(m.store.buffers) + sum_sizes(sizes_of(m.cur_layers)) == total_len(
            st0.buffers,
        ) + requested_params(prefix)
        &&& m.segments.len() <= prefix.len()
        &&& m.segments.len() + (if m.cur_layers.len() > 0 { 1int } else { 0int }) <= prefix.len()
    }
}

pub proof fn lemma_sum_sizes_push(s: Seq<usize>, x: usize)
    ensures
        sum_sizes(s.push(x)) == sum_sizes(s) + x,
{
    assert(s.push(x).drop_last() =~= s);
}

pub proof fn lemma_total_len_push(b: Seq<crate::param_store::ParamBuffer>, x: crate::param_store::ParamBuffer)
    ensures
        total_len(b.push(x)) == total_len(b) + x.len,
{
    assert(b.push(x).drop_last() =~= b);
}

proof fn lemma_universal_push(segs: Seq<SegmentSpec>, s: SegmentSpec)
    ensures
        universal_layers(segs.push(s)) == match s.kind {
            SegmentKindSpec::Universal { layers, .. } => universal_layers(segs) + layers,
            _ => universal_layers(segs),
        },
        non_universal_count(segs.push(s)) == non_universal_count(segs) + (if s.kind is Universal {
            0nat
        } else {
            1nat
        }),
{
    assert(segs.push(s).drop_last() =~= segs);
}

/// Appending a buffer keeps every segment in the store, and a new segment
/// whose parameters are in the grown store joins them.
proof fn lemma_in_store_push(segs: Seq<SegmentSpec>, st: StoreSpec, st2: StoreSpec, s: SegmentSpec)
    requires
        segments_in_store(segs, st),
        st.buffers.len() <= st2.buffers.len(),
        forall|i: int| 0 <= i < st.buffers.len() ==> st2.buffers[i] == st.buffers[i],
        seg_in_store(s, st2),
    ensures
        segments_in_store(segs.push(s), st2),
{
    let t = segs.push(s);
    assert forall|k: int| 0 <= k < t.len() implies seg_in_store(#[trigger] t[k], st2) by {
        if k < segs.len() {
            assert(t[k] == segs[k]);
            assert(seg_in_store(segs[k], st));
        }
    }
}

proof fn lemma_wf_push(segs: Seq<SegmentSpec>, s: SegmentSpec)
    requires
        segments_well_formed(segs),
        s.index == segs.len(),
        single_or_none(s.stream_indices),
        slices_laid_out(s),
    ensures
        segments_well_formed(segs.push(s)),
{
    let t = segs.push(s);
    assert forall|k: int| 0 <= k < t.len() implies (#[trigger] t[k]).index == k by {
        if k < segs.len() {
            assert(t[k] == segs[k]);
        }
    }
    assert forall|k: int| 0 <= k < t.len() implies single_or_none((#[trigger] t[k]).stream_indices) by {
        if k < segs.len() {
            assert(t[k] == segs[k]);
        }
    }
    assert forall|k: int| 0 <= k < t.len() implies slices_laid_out(#[trigger] t[k]) by {
        if k < segs.len() {
            assert(t[k] == segs[k]);
        }
    }
}

/// Closing the pending universal segment keeps the invariant.
proof fn lemma_finalize_inv(m: BuildModel, prefix: Seq<LayerSpec>, st0: StoreSpec, kind: MemoryDeviceKind)
    requires
        build_inv(m, prefix, st0),
        !m.failed,
        m.segments.len() < usize::MAX,
    ensures
        build_inv(finalize(m, kind), prefix, st0),
        !finalize(m, kind).failed ==> finalize(m, kind).cur_layers.len() == 0,
        !finalize(m, kind).failed ==> finalize(m, kind).current_stream_indices is None,
{
    if m.cur_layers.len() > 0 {
        let sizes = sizes_of(m.cur_layers);
        let (st, slices) = alloc_spec(m.store, sizes, kind);
        if slices.len() == m.cur_layers.len() {
            let f = finalize(m, kind);
            let seg = f.segments.last();
            assert(f.segments == m.segments.push(seg));
            lemma_universal_push(m.segments, seg);
            assert(universal_layers(m.segments) + m.cur_layers + Seq::<LayerSpec>::empty()
                =~= universal_layers(m.segments) + m.cur_layers);
            assert(sizes_of(f.cur_layers) =~= Seq::<usize>::empty());
            lemma_total_len_push(m.store.buffers, crate::param_store::new_buffer(m.store, sizes, kind));
            assert(slices =~= segment_slices(sizes, slices[0].buffer_idx));
            lemma_wf_push(m.segments, seg);
            assert(st.buffers[m.store.buffers.len() as int] == crate::param_store::new_buffer(m.store, sizes, kind));
            assert(alloc_fits(m.store, sizes));
            assert(slices.len() == sizes.len());
            if st0.buffers.len() + prefix.len() <= usize::MAX {
                assert(slices[0].buffer_idx == m.store.buffers.len());
                assert(sum_sizes(sizes) <= usize::MAX);
                assert(st.buffers[slices[0].buffer_idx as int].len == sum_sizes(sizes));
                assert(seg.kind == SegmentKindSpec::Universal { layers: m.cur_layers, slices });
                assert(seg_in_store(seg, st));
                lemma_in_store_push(m.segments, m.store, st, seg);
            }
        }
    }
}


pub proof fn lemma_prefix_push(prefix: Seq<LayerSpec>, d: LayerSpec)
    ensures
        processing_layers(prefix.push(d)) == (if is_processing_kind(d.kind) {
            processing_layers(prefix).push(d)
        } else {
            processing_layers(prefix)
        }),
        topology_count(prefix.push(d)) == topology_count(prefix) + (if is_topology_kind(d.kind) {
            1nat
        } else {
            0nat
        }),
        requested_params(prefix.push(d)) == requested_params(prefix) + (if is_processing_kind(
            d.kind,
        ) || d.kind is Splitter || d.kind is Combiner {
            d.param_len as nat
        } else {
            0nat
        }),
{
    assert(prefix.push(d).drop_last() =~= prefix);
}

pub proof fn lemma_single_size(x: usize)
    ensures
        sum_sizes(seq![x]) == x,
{
    assert(seq![x].drop_last() =~= Seq::<usize>::empty());
    assert(sum_sizes(Seq::<usize>::empty()) == 0);
    assert(seq![x].last() == x);
}

/// Adding a learnable connector or a dimension change keeps the invariant.
proof fn lemma_topology_step_inv(m: BuildModel, d: LayerSpec, prefix: Seq<LayerSpec>, st0: StoreSpec, kind: MemoryDeviceKind)
    requires
        build_inv(m, prefix, st0),
        !m.failed,
        m.cur_layers.len() == 0,
        m.current_stream_indices is None,
        m.segments.len() <= prefix.len(),
        prefix.len() < usize::MAX,
        is_topology_kind(d.kind),
    ensures
        build_inv(step(m, d, kind), prefix.push(d), st0),
{
    lemma_prefix_push(prefix, d);
    assert(finalize(m, kind) == m);
    let r = step(m, d, kind);
    if !r.failed {
        let seg = r.segments.last();
        assert(r.segments == m.segments.push(seg));
        lemma_universal_push(m.segments, seg);
        lemma_wf_push(m.segments, seg);
        assert(universal_layers(r.segments) + r.cur_layers == universal_layers(m.segments) + m.cur_layers);
        if d.kind is Splitter || d.kind is Combiner {
            let sizes = seq![d.param_len];
            lemma_single_size(d.param_len);
            lemma_total_len_push(m.store.buffers, crate::param_store::new_buffer(m.store, sizes, kind));
            if st0.buffers.len() + prefix.len() < usize::MAX {
                assert(seg_in_store(seg, r.store));
                lemma_in_store_push(m.segments, m.store, r.store, seg);
            }
        } else if st0.buffers.len() + prefix.len() < usize::MAX {
            lemma_in_store_push(m.segments, m.store, r.store, seg);
        }
    }
}

/// Adding an ordinary layer keeps the invariant.
proof fn lemma_layer_step_inv(m: BuildModel, d: LayerSpec, prefix: Seq<LayerSpec>, st0: StoreSpec, kind: MemoryDeviceKind)
    requires
        build_inv(m, prefix, st0),
        !m.failed,
        is_processing_kind(d.kind),
    ensures
        build_inv(step(m, d, kind), prefix.push(d), st0),
{
    lemma_prefix_push(prefix, d);
    let r = step(m, d, kind);
    assert(r == add_layer(m, d));
    assert(sizes_of(r.cur_layers) =~= sizes_of(m.cur_layers).push(d.param_len));
    lemma_sum_sizes_push(sizes_of(m.cur_layers), d.param_len);
    assert(universal_layers(r.segments) + r.cur_layers =~= (universal_layers(m.segments)
        + m.cur_layers).push(d));
}

/// One building step keeps the invariant.
pub proof fn lemma_step_inv(m: BuildModel, d: LayerSpec, prefix: Seq<LayerSpec>, st0: StoreSpec, kind: MemoryDeviceKind)
    requires
        build_inv(m, prefix, st0),
        prefix.len() < usize::MAX,
    ensures
        build_inv(step(m, d, kind), prefix.push(d), st0),
{
    if !m.failed {
        lemma_prefix_push(prefix, d);
        if is_processing_kind(d.kind) {
            lemma_layer_step_inv(m, d, prefix, st0, kind);
        } else if d.kind is CombinerConnector {
            assert(step(m, d, kind) == m);
        } else {
            lemma_finalize_inv(m, prefix, st0, kind);
            let m1 = finalize(m, kind);
            if !m1.failed {
                if d.kind is SplitterConnector {
                    assert(step(m, d, kind) == mark_branch(m1, d));
                } else {
                    assert(step(m1, d, kind) == step(m, d, kind));
                    lemma_topology_step_inv(m1, d, prefix, st0, kind);
                }
            }
        }
    }
}

/// The invariant holds after every prefix of the layers.
pub proof fn lemma_run_inv(layers: Seq<LayerSpec>, st0: StoreSpec, kind: MemoryDeviceKind)
    requires
        layers.len() <= usize::MAX,
    ensures
        build_inv(run(layers, initial_model(st0), kind), layers, st0),
    decreases layers.len(),
{
    if layers.len() == 0 {
        assert(universal_layers(Seq::<SegmentSpec>::empty()) + Seq::<LayerSpec>::empty()
            =~= Seq::<LayerSpec>::empty());
        assert(sizes_of(Seq::<LayerSpec>::empty()) =~= Seq::<usize>::empty());
    } else {
        lemma_run_inv(layers.drop_last(), st0, kind);
        assert(layers.drop_last().push(layers.last()) =~= layers);
        lemma_step_inv(run(layers.drop_last(), initial_model(st0), kind), layers.last(), layers.drop_last(), st0, kind);
    }
}


proof fn lemma_build_result_inv(layers: Seq<LayerSpec>, store: StoreSpec, kind: MemoryDeviceKind)
    requires
        layers.len() < usize::MAX,
        !build_result(layers, store, kind).failed,
    ensures
        ({
            let r = build_result(layers, store, kind);
            &&& build_inv(r, layers, store)
            &&& r.cur_layers.len() == 0
        }),
{
    lemma_run_inv(layers, store, kind);
    let m = run(layers, initial_model(store), kind);
    lemma_finalize_inv(m, layers, store, kind);
}

/// Every ordinary layer ends up in exactly one universal segment, and the
/// universal segments, read in order, list the ordinary layers in the
/// order of the layer list.
pub proof fn law_build_keeps_layers_in_order(layers: Seq<LayerSpec>, store: StoreSpec, kind: MemoryDeviceKind)
    requires
        layers.len() < usize::MAX,
        !build_result(layers, store, kind).failed,
    ensures
        universal_layers(build_result(layers, store, kind).segments) == processing_layers(layers),
{
    lemma_build_result_inv(layers, store, kind);
    let r = build_result(layers, store, kind);
    assert(universal_layers(r.segments) + r.cur_layers =~= universal_layers(r.segments));
}

/// Every splitter, combiner, unsqueeze and reduce-mean layer becomes one
/// segment of its own; the stream markers create none.
pub proof fn law_build_one_segment_per_topology_layer(layers: Seq<LayerSpec>, store: StoreSpec, kind: MemoryDeviceKind)
    requires
        layers.len() < usize::MAX,
        !build_result(layers, store, kind).failed,
    ensures
        non_universal_count(build_result(layers, store, kind).segments) == topology_count(layers),
{
    lemma_build_result_inv(layers, store, kind);
}

/// Segments are numbered by their position, each names at most one stream,
/// and the parameters of a universal segment are one slice per layer, laid
/// out one after another in a single buffer in the order of the layers.
pub proof fn law_build_segments_well_formed(layers: Seq<LayerSpec>, store: StoreSpec, kind: MemoryDeviceKind)
    requires
        layers.len() < usize::MAX,
        !build_result(layers, store, kind).failed,
    ensures
        segments_well_formed(build_result(layers, store, kind).segments),
{
    lemma_build_result_inv(layers, store, kind);
}

/// Building allocates exactly the parameters that the ordinary layers and
/// the learnable connectors ask for.
pub proof fn law_build_allocates_requested_params(layers: Seq<LayerSpec>, store: StoreSpec, kind: MemoryDeviceKind)
    requires
        layers.len() < usize::MAX,
        !build_result(layers, store, kind).failed,
    ensures
        total_len(build_result(layers, store, kind).store.buffers) == total_len(store.buffers)
            + requested_params(layers),
{
    lemma_build_result_inv(layers, store, kind);
    let r = build_result(layers, store, kind);
    assert(sizes_of(r.cur_layers) =~= Seq::<usize>::empty());
}

/// Every segment that building returns has its parameters in the store that
/// building returns: a universal segment's first slice names a buffer of
/// exactly its layers' size, and a connector's slice names an existing buffer.
pub proof fn law_build_segments_in_store(layers: Seq<LayerSpec>, store: StoreSpec, kind: MemoryDeviceKind)
    requires
        store.buffers.len() + layers.len() < usize::MAX,
        !build_result(layers, store, kind).failed,
    ensures
        segments_in_store(
            build_result(layers, store, kind).segments,
            build_result(layers, store, kind).store,
        ),
{
    lemma_build_result_inv(layers, store, kind);
}

/// Number of universal segments.
pub open spec fn universal_count(segs: Seq<SegmentSpec>) -> nat
    decreases segs.len(),
{
    if segs.len() == 0 {
        0
    } else if segs.last().kind is Universal {
        universal_count(segs.drop_last()) + 1
    } else {
        universal_count(segs.drop_last())
    }
}

/// True when a layer list ends inside a run of ordinary layers; a combiner
/// marker does not end the run.
pub open spec fn in_run(layers: Seq<LayerSpec>) -> bool
    decreases layers.len(),
{
    if layers.len() == 0 {
        false
    } else if is_processing_kind(layers.last().kind) {
        true
    } else if layers.last().kind is CombinerConnector {
        in_run(layers.drop_last())
    } else {
        false
    }
}

/// Number of maximal runs of consecutive ordinary layers; a combiner marker
/// does not end a run.
pub open spec fn ordinary_runs(layers: Seq<LayerSpec>) -> nat
    decreases layers.len(),
{
    if layers.len() == 0 {
        0
    } else if is_processing_kind(layers.last().kind) && !in_run(layers.drop_last()) {
        ordinary_runs(layers.drop_last()) + 1
    } else {
        ordinary_runs(layers.drop_last())
    }
}

proof fn lemma_push_count(segs: Seq<SegmentSpec>, s: SegmentSpec)
    ensures
        universal_count(segs.push(s)) == universal_count(segs) + if s.kind is Universal {
            1nat
        } else {
            0nat
        },
{
    assert(segs.push(s).drop_last() =~= segs);
}

proof fn lemma_run_counts(layers: Seq<LayerSpec>, store: StoreSpec, kind: MemoryDeviceKind)
    requires
        !run(layers, initial_model(store), kind).failed,
    ensures
        ({
            let m = run(layers, initial_model(store), kind);
            &&& universal_count(m.segments) + (if m.cur_layers.len() > 0 {
                1nat
            } else {
                0nat
            }) == ordinary_runs(layers)
            &&& (m.cur_layers.len() > 0 <==> in_run(layers))
        }),
    decreases layers.len(),
{
    if layers.len() > 0 {
        let prev = layers.drop_last();
        let d = layers.last();
        let m = run(prev, initial_model(store), kind);
        assert(!m.failed);
        lemma_run_counts(prev, store, kind);
        if !is_processing_kind(d.kind) && !(d.kind is CombinerConnector) {
            let m1 = finalize(m, kind);
            if m.cur_layers.len() > 0 {
                let (st, slices) = alloc_spec(m.store, sizes_of(m.cur_layers), kind);
                if slices.len() == m.cur_layers.len() {
                    lemma_push_count(m.segments, m1.segments.last());
                    assert(m1.segments == m.segments.push(m1.segments.last()));
                }
            }
            if !m1.failed && (d.kind is Splitter || d.kind is Combiner || d.kind is Unsqueeze || d.kind is ReduceMean) {
                let m2 = step(m, d, kind);
                if !m2.failed {
                    assert(m2.segments == m1.segments.push(m2.segments.last()));
                    lemma_push_count(m1.segments, m2.segments.last());
                }
            }
        }
    }
}

/// Consecutive ordinary layers form one universal segment: a list that
/// builds has exactly as many universal segments as it has maximal runs of
/// ordinary layers.
pub proof fn law_build_one_universal_segment_per_run(layers: Seq<LayerSpec>, store: StoreSpec, kind: MemoryDeviceKind)
    requires
        !build_result(layers, store, kind).failed,
    ensures
        universal_count(build_result(layers, store, kind).segments) == ordinary_runs(layers),
{
    let m = run(layers, initial_model(store), kind);
    assert(!m.failed);
    lemma_run_counts(layers, store, kind);
    if m.cur_layers.len() > 0 {
        let f = finalize(m, kind);
        assert(f.segments == m.segments.push(f.segments.last()));
        lemma_push_count(m.segments, f.segments.last());
    }
}

} // verus!

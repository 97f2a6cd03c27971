use vstd::prelude::*;
use crate::buffer::{MatrixBufferHandle, MemoryDeviceKind};
use crate::builder::{build_defined, build_result, build_segments, sizes_of};
use crate::builder_laws::{
    law_build_segments_in_store, law_build_segments_well_formed, seg_in_store, segments_in_store,
    segments_well_formed,
};
use crate::context::{ContextSpec, DynamicContext, contexts_view};
use crate::graph::{ForwardCacheV2, SegmentForwardStateV2, SegmentKindSpec, SegmentKindV2, SegmentSpec, SegmentV2, segments_view};
use crate::forward::{forward_fails_at, forward_refuses, forward_trace, params_in_store, run_forward};
use crate::backward::{backward_fails_at, backward_trace, cache_size_message, run_backward};
use crate::jobs::{ForwardContextsV2, Job, JobResult, chunks_view, copy_layers, copy_slices, layers_view};
use crate::text::{decimal, push_decimal, segment_note};
use crate::layer::{LayerDesc, LayerSpec, copy_dims, opt_dims_view};
use crate::param_store::{ParamSlice, ParamStore, flat_ranges_of, StoreSpec, lemma_sum_prefix_monotone, moved_buffer, sum_sizes};

verus! {

/// The store a graph starts from: no buffer, and handle ids counted from zero.
pub open spec fn empty_store() -> StoreSpec {
    StoreSpec { buffers: Seq::empty(), next_id: 0 }
}

/// What the distributor is told about one segment when it plans placement:
/// its parameter count, the handles of its parameter buffers and where they live.
#[derive(Clone, Copy, PartialEq, Eq, Structural, Debug)]
pub struct SegmentTopologyInfo {
    pub index: usize,
    pub param_count: usize,
    pub param_handle: Option<MatrixBufferHandle>,
    pub grad_handle: Option<MatrixBufferHandle>,
    pub opt_state_handle: Option<MatrixBufferHandle>,
    pub adapter_state_handle: Option<MatrixBufferHandle>,
    pub current_param_location: MemoryDeviceKind,
}

/// The placement facts of one segment: a universal segment reports the sum of
/// its layers' parameters and the buffer of its first slice; every other
/// segment reports no parameters, in host memory.
pub open spec fn topology_info(seg: SegmentSpec, st: StoreSpec) -> SegmentTopologyInfo {
    match seg.kind {
        SegmentKindSpec::Universal { layers, slices } => {
            let count = sum_sizes(sizes_of(layers)) as usize;
            if slices.len() > 0 {
                let b = st.buffers[slices[0].buffer_idx as int];
                SegmentTopologyInfo {
                    index: seg.index,
                    param_count: count,
                    param_handle: Some(b.params),
                    grad_handle: Some(b.grads),
                    opt_state_handle: b.opt_state,
                    adapter_state_handle: None,
                    current_param_location: b.location,
                }
            } else {
                SegmentTopologyInfo {
                    index: seg.index,
                    param_count: count,
                    param_handle: None,
                    grad_handle: None,
                    opt_state_handle: None,
                    adapter_state_handle: None,
                    current_param_location: MemoryDeviceKind::HostRam,
                }
            }
        },
        _ => SegmentTopologyInfo {
            index: seg.index,
            param_count: 0,
            param_handle: None,
            grad_handle: None,
            opt_state_handle: None,
            adapter_state_handle: None,
            current_param_location: MemoryDeviceKind::HostRam,
        },
    }
}

/// Sum of the parameter counts of a list of layers.
fn sum_param_lens(layers: &Vec<LayerDesc>, Ghost(bound): Ghost<nat>) -> (r: usize)
    requires
        sum_sizes(sizes_of(layers_view(layers@))) == bound,
        bound <= usize::MAX,
    ensures
        r == bound,
{
    let ghost sizes = sizes_of(layers_view(layers@));
    let mut acc: usize = 0;
    let mut i: usize = 0;
    while i < layers.len()
        invariant
            i <= layers.len(),
            sizes == sizes_of(layers_view(layers@)),
            sizes.len() == layers@.len(),
            sum_sizes(sizes) == bound,
            bound <= usize::MAX,
            acc == sum_sizes(sizes.take(i as int)),
        decreases layers.len() - i,
    {
        proof {
            assert(sizes.take(i + 1).drop_last() =~= sizes.take(i as int));
            assert(sizes[i as int] == layers@[i as int]@.param_len);
            lemma_sum_prefix_monotone(sizes, i + 1, sizes.len() as int);
            assert(sizes.take(sizes.len() as int) =~= sizes);
        }
        acc = acc + layers[i].param_len();
        i = i + 1;
    }
    proof {
        assert(sizes.take(i as int) =~= sizes);
    }
    acc
}

/// A universal segment whose layers' adapters run once the gradients of a
/// step are ready: the handles of its parameter and gradient buffers, its
/// layers with their slices, and the contexts its forward pass saved.
pub struct AdapterSegmentTarget {
    pub segment_index: usize,
    pub params: MatrixBufferHandle,
    pub grads: MatrixBufferHandle,
    pub layers: Vec<LayerDesc>,
    pub slices: Vec<ParamSlice>,
    pub contexts: Vec<DynamicContext>,
}

/// The mathematical model of an adapter target.
pub struct AdapterTargetSpec {
    pub segment_index: usize,
    pub params: MatrixBufferHandle,
    pub grads: MatrixBufferHandle,
    pub layers: Seq<LayerSpec>,
    pub slices: Seq<ParamSlice>,
    pub contexts: Seq<ContextSpec>,
}

impl View for AdapterSegmentTarget {
    type V = AdapterTargetSpec;

    open spec fn view(&self) -> AdapterTargetSpec {
        AdapterTargetSpec {
            segment_index: self.segment_index,
            params: self.params,
            grads: self.grads,
            layers: layers_view(self.layers@),
            slices: self.slices@,
            contexts: contexts_view(self.contexts@),
        }
    }
}

/// The contexts of the first chunk of a forward pass, or none.
pub open spec fn first_chunk_view(c: &ForwardContextsV2) -> Seq<ContextSpec> {
    if chunks_view(c).len() > 0 {
        chunks_view(c)[0]
    } else {
        Seq::empty()
    }
}

/// The adapter target of segment `k`, when it is universal and its forward
/// state is universal too.
pub open spec fn adapter_target_at(
    segs: Seq<SegmentSpec>,
    states: Seq<SegmentForwardStateV2>,
    st: StoreSpec,
    k: int,
) -> Option<AdapterTargetSpec> {
    match segs[k].kind {
        SegmentKindSpec::Universal { layers, slices } => match states[k] {
            SegmentForwardStateV2::Universal { contexts } => {
                let b = st.buffers[slices[0].buffer_idx as int];
                Some(
                    AdapterTargetSpec {
                        segment_index: segs[k].index,
                        params: b.params,
                        grads: b.grads,
                        layers,
                        slices,
                        contexts: first_chunk_view(&contexts),
                    },
                )
            },
            _ => None,
        },
        _ => None,
    }
}

/// The adapter targets among the first `n` segments, in order.
pub open spec fn adapter_targets(
    segs: Seq<SegmentSpec>,
    states: Seq<SegmentForwardStateV2>,
    st: StoreSpec,
    n: nat,
) -> Seq<AdapterTargetSpec>
    decreases n,
{
    if n == 0 {
        Seq::empty()
    } else {
        let prev = adapter_targets(segs, states, st, (n - 1) as nat);
        match adapter_target_at(segs, states, st, n - 1) {
            Some(t) => prev.push(t),
            None => prev,
        }
    }
}

/// The mathematical model of a graph.
pub struct GraphSpec {
    pub segments: Seq<SegmentSpec>,
    pub store: StoreSpec,
    pub input: Seq<usize>,
    pub output: Seq<usize>,
    pub cache: Option<ForwardCacheV2>,
    pub seed: Option<u64>,
}

/// An execution graph: its segments, the parameters they use, the shapes of
/// its input and output, the cache of the last forward pass and the seed for
/// parameter initialisation.
pub struct GraphV2 {
    segments: Vec<SegmentV2>,
    param_store: ParamStore,
    input_shape: Vec<usize>,
    output_shape: Vec<usize>,
    forward_cache: Option<ForwardCacheV2>,
    seed: Option<u64>,
}

impl View for GraphV2 {
    type V = GraphSpec;

    closed spec fn view(&self) -> GraphSpec {
        GraphSpec {
            segments: segments_view(self.segments@),
            store: self.param_store@,
            input: self.input_shape@,
            output: self.output_shape@,
            cache: self.forward_cache,
            seed: self.seed,
        }
    }
}

/// The graph holds the cache of a forward pass with one state per segment:
/// what the backward pass and the adapter pass need.
pub open spec fn cache_fits(g: GraphSpec) -> bool {
    g.cache matches Some(c) && c.segment_states@.len() == g.segments.len()
}

/// The refusal of the adapter pass when no forward pass left its cache.
pub open spec fn adapter_no_cache_message() -> Seq<char> {
    "GraphV2::adapter_pass: forward_cache is empty. adapter_pass must be called after forward/loss/backward and before optimizer_apply_update."@
}

/// The refusal of the adapter pass when the cache does not hold one state per
/// segment.
pub open spec fn adapter_cache_size_message(cache_len: nat, segments_len: nat) -> Seq<char> {
    "GraphV2::adapter_pass: cache size ("@ + decimal(cache_len) + ") != segments count ("@ + decimal(
        segments_len,
    ) + ")"@
}

/// What holds of every graph: the store is consistent, the segments are well
/// formed and their parameters live in the store.
pub open spec fn graph_wf(g: GraphSpec) -> bool {
    &&& segments_well_formed(g.segments)
    &&& segments_in_store(g.segments, g.store)
}

impl GraphV2 {
    /// Segment `k` of the graph.
    pub closed spec fn segment_at(&self, k: int) -> SegmentV2 {
        self.segments@[k]
    }

    /// The segments of the graph, in execution order.
    pub closed spec fn segment_list(&self) -> Seq<SegmentV2> {
        self.segments@
    }

    /// The segments' model is the model of the segment list.
    pub proof fn lemma_segment_list(&self)
        ensures
            segments_view(self.segment_list()) == self@.segments,
            self.segment_list().len() == self@.segments.len(),
    {
    }

    /// Segment `k` of the graph is the one its model lists at `k`.
    pub proof fn lemma_segment_at(&self, k: int)
        requires
            0 <= k < self@.segments.len(),
        ensures
            self.segment_at(k)@ == self@.segments[k],
    {
    }

    /// Internal consistency of the graph.
    pub closed spec fn wf(&self) -> bool {
        &&& self.param_store.wf()
        &&& graph_wf(self@)
    }

    /// Builds the graph of a list of layer descriptions.
    ///
    /// An empty list is refused; otherwise the result is that of
    /// `build_segments` on a fresh parameter store in host memory.
    pub fn build(layers_desc: Vec<LayerDesc>) -> (r: Result<GraphV2, String>)
        requires
            layers_desc@.len() < usize::MAX,
            build_defined(layers_view(layers_desc@), empty_store(), MemoryDeviceKind::HostRam),
        ensures
            layers_desc@.len() == 0 ==> (r matches Err(e) && e@ == "GraphV2::build: empty layer list"@),
            layers_desc@.len() > 0 ==> (r matches Err(e) ==> e@ == build_result(
                layers_view(layers_desc@),
                empty_store(),
                MemoryDeviceKind::HostRam,
            ).error),
            r is Err <==> (layers_desc@.len() == 0 || build_result(
                layers_view(layers_desc@),
                empty_store(),
                MemoryDeviceKind::HostRam,
            ).failed),
            r matches Ok(g) ==> {
                let m = build_result(layers_view(layers_desc@), empty_store(), MemoryDeviceKind::HostRam);
                &&& g.wf()
                &&& g@.segments == m.segments
                &&& g@.store == m.store
                &&& g@.input == layers_desc@[0].input_shape.streams@
                &&& g@.output == layers_desc@[layers_desc@.len() - 1].output_shape.streams@
                &&& g@.cache is None
                &&& g@.seed is None
            },
    {
        if layers_desc.len() == 0 {
            return Err("GraphV2::build: empty layer list".to_string());
        }
        let mut param_store = ParamStore::new();
        proof {
            assert(param_store@ == empty_store());
        }
        let segments = match build_segments(&layers_desc, &mut param_store, MemoryDeviceKind::HostRam) {
            Ok(s) => s,
            Err(e) => return Err(e),
        };
        proof {
            let lv = layers_view(layers_desc@);
            law_build_segments_in_store(lv, empty_store(), MemoryDeviceKind::HostRam);
            law_build_segments_well_formed(lv, empty_store(), MemoryDeviceKind::HostRam);
        }
        let input_shape = copy_dims(&layers_desc[0].input_shape.streams);
        let output_shape = copy_dims(&layers_desc[layers_desc.len() - 1].output_shape.streams);
        Ok(GraphV2 { segments, param_store, input_shape, output_shape, forward_cache: None, seed: None })
    }

    /// The same graph with a seed for parameter initialisation.
    pub fn with_seed(self, seed: u64) -> (r: GraphV2)
        requires
            self.wf(),
        ensures
            r.wf(),
            r@ == (GraphSpec { seed: Some(seed), ..self@ }),
    {
        GraphV2 { seed: Some(seed), ..self }
    }

    pub fn seed(&self) -> (r: Option<u64>)
        ensures
            r == self@.seed,
    {
        self.seed
    }

    pub fn num_segments(&self) -> (r: usize)
        ensures
            r == self@.segments.len(),
    {
        self.segments.len()
    }

    pub fn input_shape(&self) -> (r: &[usize])
        ensures
            r@ == self@.input,
    {
        self.input_shape.as_slice()
    }

    pub fn output_shape(&self) -> (r: &[usize])
        ensures
            r@ == self@.output,
    {
        self.output_shape.as_slice()
    }

    /// The segments of the graph, in execution order.
    pub fn segments(&self) -> (r: &Vec<SegmentV2>)
        ensures
            segments_view(r@) == self@.segments,
    {
        &self.segments
    }

    /// The parameter store of the graph.
    pub fn param_store(&self) -> (r: &ParamStore)
        requires
            self.wf(),
        ensures
            r.wf(),
            r@ == self@.store,
    {
        &self.param_store
    }

    /// Records that parameter buffer `idx` now lives in `target`.
    pub fn move_param_buffer(&mut self, idx: usize, target: MemoryDeviceKind)
        requires
            old(self).wf(),
            idx < old(self)@.store.buffers.len(),
        ensures
            final(self).wf(),
            final(self)@ == (GraphSpec {
                store: StoreSpec {
                    buffers: old(self)@.store.buffers.update(
                        idx as int,
                        moved_buffer(old(self)@.store.buffers[idx as int], target),
                    ),
                    ..old(self)@.store
                },
                ..old(self)@
            }),
    {
        let ghost segs = self@.segments;
        let ghost st = self@.store;
        self.param_store.move_buffer(idx, target);
        proof {
            let st2 = self@.store;
            assert forall|k: int| 0 <= k < segs.len() implies seg_in_store(#[trigger] segs[k], st2) by {
                assert(seg_in_store(segs[k], st));
            }
        }
    }

    /// The placement facts of every segment, in order, for the distributor.
    pub fn collect_segment_infos(&self) -> (r: Vec<SegmentTopologyInfo>)
        requires
            self.wf(),
        ensures
            r@ == self@.segments.map_values(|s: SegmentSpec| topology_info(s, self@.store)),
    {
        let ghost segs = self@.segments;
        let ghost st = self@.store;
        let mut infos: Vec<SegmentTopologyInfo> = Vec::new();
        let mut i: usize = 0;
        while i < self.segments.len()
            invariant
                i <= self.segments.len(),
                segs == self@.segments,
                st == self@.store,
                self.wf(),
                infos@ == segs.take(i as int).map_values(|s: SegmentSpec| topology_info(s, st)),
            decreases self.segments.len() - i,
        {
            let seg = &self.segments[i];
            proof {
                assert(segs[i as int] == seg@);
                assert(seg_in_store(segs[i as int], st));
            }
            let info = match &seg.kind {
                SegmentKindV2::Universal { layers, slices } => {
                    let ghost lv = layers_view(layers@);
                    let param_count = sum_param_lens(layers, Ghost(sum_sizes(sizes_of(lv))));
                    if slices.len() > 0 {
                        let b = self.param_store.get_param_buffer(&slices[0]);
                        SegmentTopologyInfo {
                            index: seg.index,
                            param_count,
                            param_handle: Some(b.params),
                            grad_handle: Some(b.grads),
                            opt_state_handle: b.opt_state,
                            adapter_state_handle: None,
                            current_param_location: b.location,
                        }
                    } else {
                        SegmentTopologyInfo {
                            index: seg.index,
                            param_count,
                            param_handle: None,
                            grad_handle: None,
                            opt_state_handle: None,
                            adapter_state_handle: None,
                            current_param_location: MemoryDeviceKind::HostRam,
                        }
                    }
                },
                _ => SegmentTopologyInfo {
                    index: seg.index,
                    param_count: 0,
                    param_handle: None,
                    grad_handle: None,
                    opt_state_handle: None,
                    adapter_state_handle: None,
                    current_param_location: MemoryDeviceKind::HostRam,
                },
            };
            proof {
                assert(info == topology_info(segs[i as int], st));
                assert(segs.take(i + 1) =~= segs.take(i as int).push(segs[i as int]));
            }
            infos.push(info);
            i = i + 1;
        }
        proof {
            assert(segs.take(i as int) =~= segs);
        }
        infos
    }

    /// What the adapter pass of a step works on: the batch size of the last
    /// forward pass and the adapter target of every universal segment.
    ///
    /// Refused when no forward pass left its cache, or when the cache does not
    /// hold one state per segment.
    pub fn adapter_pass_targets(&self) -> (r: Result<(usize, Vec<AdapterSegmentTarget>), String>)
        requires
            self.wf(),
        ensures
            r is Err <==> !cache_fits(self@),
            self@.cache is None ==> (r matches Err(e) && e@ == adapter_no_cache_message()),
            self@.cache matches Some(c) ==> (c.segment_states@.len() != self@.segments.len() ==> (r matches Err(e)
                && e@ == adapter_cache_size_message(c.segment_states@.len(), self@.segments.len()))),
            r matches Ok((batch, targets)) ==> {
                &&& batch == self@.cache.unwrap().batch
                &&& targets@.map_values(|t: AdapterSegmentTarget| t@) == adapter_targets(
                    self@.segments,
                    self@.cache.unwrap().segment_states@,
                    self@.store,
                    self@.segments.len(),
                )
            },
    {
        let cache = match &self.forward_cache {
            Some(c) => c,
            None => {
                let m = "GraphV2::adapter_pass: forward_cache is empty. adapter_pass must be called after forward/loss/backward and before optimizer_apply_update.".to_string();
                return Err(m);
            },
        };
        if cache.segment_states.len() != self.segments.len() {
            let mut m = "GraphV2::adapter_pass: cache size (".to_string();
            push_decimal(&mut m, cache.segment_states.len());
            m.append(") != segments count (");
            push_decimal(&mut m, self.segments.len());
            m.append(")");
            assert(m@ =~= adapter_cache_size_message(cache.segment_states@.len(), self@.segments.len()));
            return Err(m);
        }
        let ghost segs = self@.segments;
        let ghost states = cache.segment_states@;
        let ghost st = self@.store;
        let mut targets: Vec<AdapterSegmentTarget> = Vec::new();
        let mut i: usize = 0;
        while i < self.segments.len()
            invariant
                i <= self.segments.len(),
                segs == self@.segments,
                st == self@.store,
                states == cache.segment_states@,
                states.len() == segs.len(),
                self.wf(),
                targets@.map_values(|t: AdapterSegmentTarget| t@) == adapter_targets(
                    segs,
                    states,
                    st,
                    i as nat,
                ),
            decreases self.segments.len() - i,
        {
            let seg = &self.segments[i];
            proof {
                assert(segs[i as int] == seg@);
                assert(seg_in_store(segs[i as int], st));
            }
            let ghost before = targets@;
            match &seg.kind {
                SegmentKindV2::Universal { layers, slices } => {
                    match &cache.segment_states[i] {
                        SegmentForwardStateV2::Universal { contexts } => {
                            if slices.len() == 0 {
                                return Err(segment_note("GraphV2::adapter_pass", seg.index, " has no slices"));
                            }
                            let params = self.param_store.params_handle(&slices[0]);
                            let grads = self.param_store.grads_handle(&slices[0]);
                            let t = AdapterSegmentTarget {
                                segment_index: seg.index,
                                params,
                                grads,
                                layers: copy_layers(layers),
                                slices: copy_slices(slices),
                                contexts: contexts.first_chunk(),
                            };
                            proof {
                                assert(adapter_target_at(segs, states, st, i as int) == Some(t@));
                            }
                            targets.push(t);
                            proof {
                                assert(targets@.map_values(|t: AdapterSegmentTarget| t@) =~= before.map_values(
                                    |t: AdapterSegmentTarget| t@,
                                ).push(t@));
                            }
                        },
                        _ => {},
                    }
                },
                _ => {},
            }
            i = i + 1;
        }
        Ok((cache.batch, targets))
    }

    /// How a flat vector of `total_params` initial values is cut over the
    /// parameter buffers.
    pub fn init_param_ranges(&self) -> (r: Vec<(usize, usize, usize)>)
        requires
            self.wf(),
        ensures
            r@ == flat_ranges_of(self@.store.buffers),
    {
        self.param_store.flat_ranges()
    }

    /// Runs one optimizer job per parameter buffer through `run`, in buffer
    /// order, with the buffer's index, parameters and gradients; stops at the
    /// first job that does not answer `Unit`, and refuses with the operation
    /// `op`, the buffer's index and the answer.
    pub fn optimizer_pass<F: Fn(usize, MatrixBufferHandle, MatrixBufferHandle) -> JobResult>(
        &self,
        op: &str,
        run: &F,
    ) -> (r: Result<(), String>)
        requires
            self.wf(),
            forall|i: usize, p: MatrixBufferHandle, g: MatrixBufferHandle| run.requires((i, p, g)),
        ensures
            r is Ok ==> exists|rs: Seq<JobResult>| #[trigger] optimizer_answers(*run, self@.store, rs, self@.store.buffers.len() as int),
            r matches Err(e) ==> exists|rs: Seq<JobResult>, k: int|
                0 <= k < self@.store.buffers.len() && k < rs.len() && #[trigger] optimizer_answers(
                    *run,
                    self@.store,
                    rs,
                    k,
                )
                    && call_ensures(
                    *run,
                    (k as usize, self@.store.buffers[k].params, self@.store.buffers[k].grads),
                    rs[k],
                ) && !(rs[k] is Unit) && e@ == buffer_outcome_error(op@, k as usize, rs[k]),
    {
        let n = self.param_store.num_buffers();
        let ghost st = self@.store;
        let ghost mut rs: Seq<JobResult> = Seq::empty();
        let mut i: usize = 0;
        while i < n
            invariant
                i <= n,
                n == st.buffers.len(),
                st == self@.store,
                self.wf(),
                forall|i: usize, p: MatrixBufferHandle, g: MatrixBufferHandle| run.requires((i, p, g)),
                optimizer_answers(*run, st, rs, i as int),
                rs.len() == i,
            decreases n - i,
        {
            let b = self.param_store.get_param_buffer_by_idx(i);
            let res = run(i, b.params, b.grads);
            match res {
                JobResult::Unit => {
                    proof {
                        let old_rs = rs;
                        rs = rs.push(res);
                        assert forall|j: int| 0 <= j < i + 1 implies call_ensures(
                            *run,
                            (j as usize, st.buffers[j].params, st.buffers[j].grads),
                            #[trigger] rs[j],
                        ) && rs[j] is Unit by {
                            if j < i {
                                assert(rs[j] == old_rs[j]);
                            }
                        }
                    }
                },
                _ => {
                    let ghost rs2 = rs.push(res);
                    proof {
                        assert forall|j: int| 0 <= j < i implies call_ensures(
                            *run,
                            (j as usize, st.buffers[j].params, st.buffers[j].grads),
                            #[trigger] rs2[j],
                        ) && rs2[j] is Unit by {
                            assert(rs2[j] == rs[j]);
                        }
                        assert(optimizer_answers(*run, st, rs2, i as int));
                        assert(rs2[i as int] == res);
                    }
                    let e = buffer_outcome_message(op, i, res);
                    return Err(e);
                },
            }
            i = i + 1;
        }
        Ok(())
    }

    /// The update step of the optimizer: one job per parameter buffer through
    /// `run` (see `optimizer_pass`); when every job succeeded the step is over
    /// and the cache of its forward pass is dropped, else the graph is left
    /// as it was.
    pub fn optimizer_apply_update<F: Fn(usize, MatrixBufferHandle, MatrixBufferHandle) -> JobResult>(
        &mut self,
        run: &F,
    ) -> (r: Result<(), String>)
        requires
            old(self).wf(),
            forall|i: usize, p: MatrixBufferHandle, g: MatrixBufferHandle| run.requires((i, p, g)),
        ensures
            final(self).wf(),
            r is Ok ==> final(self)@ == (GraphSpec { cache: None, ..old(self)@ }),
            r is Err ==> final(self)@ == old(self)@,
            r is Ok ==> exists|rs: Seq<JobResult>| #[trigger] optimizer_answers(
                *run,
                old(self)@.store,
                rs,
                old(self)@.store.buffers.len() as int,
            ),
            r matches Err(e) ==> exists|rs: Seq<JobResult>, k: int|
                0 <= k < old(self)@.store.buffers.len() && k < rs.len() && #[trigger] optimizer_answers(
                    *run,
                    old(self)@.store,
                    rs,
                    k,
                ) && call_ensures(
                    *run,
                    (k as usize, old(self)@.store.buffers[k].params, old(self)@.store.buffers[k].grads),
                    rs[k],
                ) && !(rs[k] is Unit) && e@ == buffer_outcome_error(
                    "GraphV2::optimizer_apply_update"@,
                    k as usize,
                    rs[k],
                ),
    {
        let r = self.optimizer_pass("GraphV2::optimizer_apply_update", run);
        if r.is_ok() {
            self.forward_cache = None;
        }
        r
    }

    /// The parameter and gradient handles of every buffer, in buffer order:
    /// what one optimizer job per buffer works on.
    pub fn param_buffer_handles(&self) -> (r: Vec<(usize, MatrixBufferHandle, MatrixBufferHandle)>)
        requires
            self.wf(),
        ensures
            r@.len() == self@.store.buffers.len(),
            forall|i: int|
                0 <= i < r@.len() ==> #[trigger] r@[i] == (
                    i as usize,
                    self@.store.buffers[i].params,
                    self@.store.buffers[i].grads,
                ),
    {
        let n = self.param_store.num_buffers();
        let mut out: Vec<(usize, MatrixBufferHandle, MatrixBufferHandle)> = Vec::new();
        let mut i: usize = 0;
        while i < n
            invariant
                i <= n,
                n == self@.store.buffers.len(),
                out@.len() == i,
                forall|j: int|
                    0 <= j < i ==> #[trigger] out@[j] == (
                        j as usize,
                        self@.store.buffers[j].params,
                        self@.store.buffers[j].grads,
                    ),
            decreases n - i,
        {
            let b = self.param_store.get_param_buffer_by_idx(i);
            out.push((i, b.params, b.grads));
            i = i + 1;
        }
        out
    }

    /// The forward pass of the graph on one input buffer, each segment's job
    /// handed to `dispatch`.
    ///
    /// The cache of an earlier pass is dropped first; a successful pass leaves
    /// its own cache, with one state per segment, for the backward pass and the
    /// adapter pass; a failed one leaves none.
    #[verifier::spinoff_prover]
    #[verifier::rlimit(40)]
    pub fn forward<F: Fn(Job) -> JobResult>(
        &mut self,
        dispatch: &F,
        input: MatrixBufferHandle,
        sample_lens: Option<Vec<usize>>,
    ) -> (r: Result<MatrixBufferHandle, String>)
        requires
            old(self).wf(),
            forall|j: Job| dispatch.requires((j,)),
        ensures
            final(self).wf(),
            final(self)@.segments == old(self)@.segments,
            final(self)@.store == old(self)@.store,
            final(self)@.input == old(self)@.input,
            final(self)@.output == old(self)@.output,
            final(self)@.seed == old(self)@.seed,
            final(self)@.cache is Some <==> r is Ok,
            r matches Ok(out) ==> {
                let c = final(self)@.cache.unwrap();
                &&& cache_fits(final(self)@)
                &&& c.output == out
                &&& c.batch == input.rows
                &&& opt_dims_view(&c.sample_lens) == opt_dims_view(&sample_lens)
            },
            r matches Ok(out) ==> exists|jobs: Seq<Job>, rs: Seq<JobResult>, streams: Seq<Seq<MatrixBufferHandle>>|
                #[trigger] forward_trace(
                    *dispatch,
                    old(self)@.store,
                    opt_dims_view(&sample_lens),
                    old(self).segment_list(),
                    input,
                    jobs,
                    rs,
                    streams,
                    final(self)@.cache.unwrap().segment_states@,
                    old(self)@.segments.len(),
                ) && streams.last() == seq![out],
            r is Err ==> (exists|
                jobs: Seq<Job>,
                rs: Seq<JobResult>,
                streams: Seq<Seq<MatrixBufferHandle>>,
                states: Seq<SegmentForwardStateV2>,
                k: nat,
                job: Job,
                result: JobResult,
            |
                #[trigger] forward_fails_at(
                    *dispatch,
                    old(self)@.store,
                    opt_dims_view(&sample_lens),
                    old(self).segment_list(),
                    input,
                    jobs,
                    rs,
                    streams,
                    states,
                    k,
                    job,
                    result,
                )) || (exists|
                jobs: Seq<Job>,
                rs: Seq<JobResult>,
                streams: Seq<Seq<MatrixBufferHandle>>,
                states: Seq<SegmentForwardStateV2>,
            |
                #[trigger] forward_trace(
                    *dispatch,
                    old(self)@.store,
                    opt_dims_view(&sample_lens),
                    old(self).segment_list(),
                    input,
                    jobs,
                    rs,
                    streams,
                    states,
                    old(self)@.segments.len(),
                ) && streams.last().len() != 1),
            old(self)@.segments.len() == 0 ==> r == Ok::<MatrixBufferHandle, String>(input),
            old(self)@.segments.len() > 0 && forward_refuses(old(self).segment_at(0), 1) ==> r is Err,
    {
        self.forward_cache = None;
        proof {
            self.lemma_params_in_store();
            assert(segments_view(self.segments@).len() == self.segments@.len());
        }
        let ghost sl = opt_dims_view(&sample_lens);
        let ghost segs = self.segments@;
        let ghost st = self.param_store@;
        let ghost n = segments_view(self.segments@).len();
        match run_forward(dispatch, &self.param_store, &self.segments, input, sample_lens) {
            Ok((out, cache)) => {
                proof {
                    let (jobs, rs, streams) = choose|jobs: Seq<Job>, rs: Seq<JobResult>, streams: Seq<Seq<MatrixBufferHandle>>|
                        #[trigger] forward_trace(*dispatch, st, sl, segs, input, jobs, rs, streams, cache.segment_states@, segs.len())
                            && streams.last() == seq![out];
                    assert(forward_trace(*dispatch, st, sl, segs, input, jobs, rs, streams, cache.segment_states@, n));
                    assert(st == old(self)@.store);
                    assert(segs == old(self).segment_list());
                    assert(n == old(self)@.segments.len());
                    assert(sl == opt_dims_view(&sample_lens));
                }
                self.forward_cache = Some(cache);
                Ok(out)
            },
            Err(e) => {
                proof {
                    if exists|jobs: Seq<Job>, rs: Seq<JobResult>, streams: Seq<Seq<MatrixBufferHandle>>, states: Seq<SegmentForwardStateV2>, k: nat, job: Job, result: JobResult|
                        #[trigger] forward_fails_at(*dispatch, st, sl, segs, input, jobs, rs, streams, states, k, job, result) {
                        let (jobs, rs, streams, states, k, job, result) = choose|jobs: Seq<Job>, rs: Seq<JobResult>, streams: Seq<Seq<MatrixBufferHandle>>, states: Seq<SegmentForwardStateV2>, k: nat, job: Job, result: JobResult|
                            #[trigger] forward_fails_at(*dispatch, st, sl, segs, input, jobs, rs, streams, states, k, job, result);
                        assert(forward_fails_at(*dispatch, st, sl, segs, input, jobs, rs, streams, states, k, job, result));
                    } else {
                        let (jobs, rs, streams, states) = choose|jobs: Seq<Job>, rs: Seq<JobResult>, streams: Seq<Seq<MatrixBufferHandle>>, states: Seq<SegmentForwardStateV2>|
                            #[trigger] forward_trace(*dispatch, st, sl, segs, input, jobs, rs, streams, states, segs.len())
                                && streams.last().len() != 1;
                        assert(forward_trace(*dispatch, st, sl, segs, input, jobs, rs, streams, states, n));
                    }
                }
                Err(e)
            },
        }
    }

    /// The backward pass of the graph from the gradient of its output, each
    /// segment's job handed to `dispatch`.
    ///
    /// Refused when no forward pass left its cache. The cache is taken out for
    /// the pass and put back when the pass succeeds; a failed pass leaves no
    /// cache.
    #[verifier::spinoff_prover]
    #[verifier::rlimit(40)]
    pub fn backward<F: Fn(Job) -> JobResult>(
        &mut self,
        dispatch: &F,
        grad_output: MatrixBufferHandle,
    ) -> (r: Result<MatrixBufferHandle, String>)
        requires
            old(self).wf(),
            forall|j: Job| dispatch.requires((j,)),
        ensures
            final(self).wf(),
            final(self)@ == (GraphSpec { cache: final(self)@.cache, ..old(self)@ }),
            old(self)@.cache is None ==> (r matches Err(e) && e@ == "GraphV2::backward: forward_cache is empty"@),
            old(self)@.cache matches Some(c) ==> (c.segment_states@.len() != old(self)@.segments.len() ==> (r matches Err(e)
                && e@ == cache_size_message(c.segment_states@.len(), old(self)@.segments.len()))),
            r is Ok ==> final(self)@.cache == old(self)@.cache,
            r is Err ==> final(self)@.cache is None,
            !cache_fits(old(self)@) ==> r is Err,
            r matches Ok(g) ==> exists|jobs: Seq<Job>, rs: Seq<JobResult>, grads: Seq<Seq<MatrixBufferHandle>>|
                #[trigger] backward_trace(
                    *dispatch,
                    old(self)@.store,
                    old(self).segment_list(),
                    old(self)@.cache.unwrap().segment_states@,
                    grad_output,
                    jobs,
                    rs,
                    grads,
                    old(self)@.segments.len(),
                ) && grads.last() == seq![g],
            r is Err && cache_fits(old(self)@) ==> (exists|
                jobs: Seq<Job>,
                rs: Seq<JobResult>,
                grads: Seq<Seq<MatrixBufferHandle>>,
                t: nat,
                job: Job,
                result: JobResult,
            |
                #[trigger] backward_fails_at(
                    *dispatch,
                    old(self)@.store,
                    old(self).segment_list(),
                    old(self)@.cache.unwrap().segment_states@,
                    grad_output,
                    jobs,
                    rs,
                    grads,
                    t,
                    job,
                    result,
                )) || (exists|jobs: Seq<Job>, rs: Seq<JobResult>, grads: Seq<Seq<MatrixBufferHandle>>|
                #[trigger] backward_trace(
                    *dispatch,
                    old(self)@.store,
                    old(self).segment_list(),
                    old(self)@.cache.unwrap().segment_states@,
                    grad_output,
                    jobs,
                    rs,
                    grads,
                    old(self)@.segments.len(),
                ) && grads.last().len() != 1),
    {
        let cache = match self.forward_cache.take() {
            Some(c) => c,
            None => return Err("GraphV2::backward: forward_cache is empty".to_string()),
        };
        proof {
            self.lemma_params_in_store();
            assert(segments_view(self.segments@).len() == self.segments@.len());
        }
        let ghost segs = self.segments@;
        let ghost st = self.param_store@;
        let ghost sts = cache.segment_states@;
        let ghost n = segments_view(self.segments@).len();
        let grad_input = match run_backward(dispatch, &self.param_store, &self.segments, &cache, grad_output) {
            Ok(g) => {
                proof {
                    let (jobs, rs, grads) = choose|jobs: Seq<Job>, rs: Seq<JobResult>, grads: Seq<Seq<MatrixBufferHandle>>|
                        #[trigger] backward_trace(*dispatch, st, segs, sts, grad_output, jobs, rs, grads, segs.len())
                            && grads.last() == seq![g];
                    assert(backward_trace(*dispatch, st, segs, sts, grad_output, jobs, rs, grads, n));
                    assert(st == old(self)@.store);
                    assert(segs == old(self).segment_list());
                    assert(n == old(self)@.segments.len());
                    assert(sts == old(self)@.cache.unwrap().segment_states@);
                }
                g
            },
            Err(e) => {
                proof {
                    assert(st == old(self)@.store);
                    assert(segs == old(self).segment_list());
                    assert(n == old(self)@.segments.len());
                    assert(sts == old(self)@.cache.unwrap().segment_states@);
                    if sts.len() == segs.len() {
                        if exists|jobs: Seq<Job>, rs: Seq<JobResult>, grads: Seq<Seq<MatrixBufferHandle>>, t: nat, job: Job, result: JobResult|
                            #[trigger] backward_fails_at(*dispatch, st, segs, sts, grad_output, jobs, rs, grads, t, job, result) {
                        } else {
                            let (jobs, rs, grads) = choose|jobs: Seq<Job>, rs: Seq<JobResult>, grads: Seq<Seq<MatrixBufferHandle>>|
                                #[trigger] backward_trace(*dispatch, st, segs, sts, grad_output, jobs, rs, grads, segs.len())
                                    && grads.last().len() != 1;
                            assert(backward_trace(*dispatch, st, segs, sts, grad_output, jobs, rs, grads, n));
                        }
                    }
                }
                return Err(e);
            },
        };
        self.forward_cache = Some(cache);
        Ok(grad_input)
    }

    /// Every segment of a consistent graph has its parameters in the store.
    proof fn lemma_params_in_store(&self)
        requires
            self.wf(),
        ensures
            forall|k: int| 0 <= k < self.segments@.len() ==> params_in_store(#[trigger] self.segments@[k], self.param_store@),
    {
        assert forall|k: int| 0 <= k < self.segments@.len() implies params_in_store(#[trigger] self.segments@[k], self.param_store@) by {
            assert(segments_view(self.segments@)[k] == self.segments@[k]@);
            assert(seg_in_store(segments_view(self.segments@)[k], self.param_store@));
        }
    }

    /// True when a forward pass has left its cache.
    pub fn has_forward_cache(&self) -> (r: bool)
        ensures
            r == self@.cache is Some,
    {
        self.forward_cache.is_some()
    }

    /// Drops the cache of the last forward pass.
    pub fn clear_forward_cache(&mut self)
        requires
            old(self).wf(),
        ensures
            final(self).wf(),
            final(self)@ == (GraphSpec { cache: None, ..old(self)@ }),
    {
        self.forward_cache = None;
    }

    /// Keeps the cache of a forward pass for the backward pass.
    pub fn set_forward_cache(&mut self, cache: ForwardCacheV2)
        requires
            old(self).wf(),
        ensures
            final(self).wf(),
            final(self)@ == (GraphSpec { cache: Some(cache), ..old(self)@ }),
    {
        self.forward_cache = Some(cache);
    }

    /// Takes the cache of the last forward pass out of the graph; a backward
    /// pass without a forward pass before it is refused.
    pub fn take_forward_cache(&mut self) -> (r: Result<ForwardCacheV2, String>)
        requires
            old(self).wf(),
        ensures
            final(self).wf(),
            final(self)@ == (GraphSpec { cache: None, ..old(self)@ }),
            r is Err <==> old(self)@.cache is None,
            r matches Err(e) ==> e@ == "GraphV2::backward: forward_cache is empty"@,
            r matches Ok(c) ==> old(self)@.cache == Some(c),
    {
        match self.forward_cache.take() {
            Some(c) => Ok(c),
            None => Err("GraphV2::backward: forward_cache is empty".to_string()),
        }
    }
}

/// Whether the distributor is asked to re-plan at the start of an epoch:
/// always before the first epoch, afterwards when the observer says so.
pub fn reassign_due(epoch: usize, observer_due: bool) -> (r: bool)
    ensures
        r == (epoch == 0 || observer_due),
{
    epoch == 0 || observer_due
}

/// What a loss job answered: the loss, as the bits of an IEEE-754 single,
/// and the gradient of the prediction; a failure is passed on with the
/// operation's name in front, and any other answer is refused.
pub fn loss_outcome(result: JobResult) -> (r: Result<(u32, MatrixBufferHandle), String>)
    ensures
        match result {
            JobResult::Loss { value_bits, grad_pred } => r == Ok::<(u32, MatrixBufferHandle), String>(
                (value_bits, grad_pred),
            ),
            JobResult::Failed(msg) => r matches Err(e) && e@ == "GraphV2::loss: "@ + msg@,
            _ => r is Err,
        },
{
    match result {
        JobResult::Loss { value_bits, grad_pred } => Ok((value_bits, grad_pred)),
        JobResult::Failed(msg) => {
            let mut e = "GraphV2::loss: ".to_string();
            e.append(msg.as_str());
            Err(e)
        },
        _ => Err("GraphV2::loss: unexpected JobResult".to_string()),
    }
}

/// The answers of the optimizer jobs of the first `k` parameter buffers:
/// each is an answer `run` may give for its buffer, and each is `Unit`.
pub open spec fn optimizer_answers<F: Fn(usize, MatrixBufferHandle, MatrixBufferHandle) -> JobResult>(
    run: F,
    st: StoreSpec,
    rs: Seq<JobResult>,
    k: int,
) -> bool {
    &&& 0 <= k <= st.buffers.len()
    &&& k <= rs.len()
    &&& forall|j: int|
        0 <= j < k ==> call_ensures(run, (j as usize, st.buffers[j].params, st.buffers[j].grads), #[trigger] rs[j])
            && rs[j] is Unit
}

/// The refusal of an optimizer job of buffer `idx` that answered `result`.
pub open spec fn buffer_outcome_error(op: Seq<char>, idx: usize, result: JobResult) -> Seq<char> {
    match result {
        JobResult::Failed(msg) => op + ": buffer "@ + decimal(idx as nat) + ": "@ + msg@,
        _ => op + ": buffer "@ + decimal(idx as nat) + " unexpected JobResult"@,
    }
}

/// The refusal of an optimizer job of buffer `idx` that did not answer `Unit`.
fn buffer_outcome_message(op: &str, idx: usize, result: JobResult) -> (r: String)
    ensures
        r@ == buffer_outcome_error(op@, idx, result),
{
    let mut e = op.to_string();
    e.append(": buffer ");
    push_decimal(&mut e, idx);
    match result {
        JobResult::Failed(msg) => {
            e.append(": ");
            e.append(msg.as_str());
        },
        _ => {
            e.append(" unexpected JobResult");
        },
    }
    e
}

/// What a job without a result answered (an optimizer step or a parameter
/// initialisation of one buffer): success, or a failure passed on with the
/// operation's name in front; any other answer is refused.
pub fn unit_outcome(op: &str, result: JobResult) -> (r: Result<(), String>)
    ensures
        match result {
            JobResult::Unit => r is Ok,
            JobResult::Failed(msg) => r matches Err(e) && e@ == op@ + ": "@ + msg@,
            _ => r is Err,
        },
{
    match result {
        JobResult::Unit => Ok(()),
        JobResult::Failed(msg) => {
            let mut e = op.to_string();
            e.append(": ");
            e.append(msg.as_str());
            Err(e)
        },
        _ => {
            let mut e = op.to_string();
            e.append(": unexpected JobResult");
            Err(e)
        },
    }
}

} // verus!

use vstd::prelude::*;
use crate::buffer::MatrixBufferHandle;
use crate::forward::{connector_label, first_slice, params_in_store, seg_stream, segment_label, stream_index_for, stream_index_message};
use crate::graph::{
    ForwardCacheV2, SegmentForwardStateV2, SegmentKindSpec, SegmentKindV2, SegmentV2,
};
use crate::jobs::{
    BackwardSegmentJob, ConnectorDirection, ConnectorOpJob, ConnectorOpKind, ConnectorSpec, DimOpJob,
    DimOpKind, Job, JobResult, MigrateJob, chunks_view, connector_view, copy_layers, copy_slices, dim_op_view,
    layers_view, layout_view,
};
use crate::layer::copy_dims;
use crate::param_store::{ParamStore, StoreSpec};
use crate::context::copy_handles;
use crate::text::{count_message, decimal, push_decimal, segment_count_message, segment_head, segment_message, segment_note};

verus! {

/// The refusal of a cache that does not hold one state per segment.
pub open spec fn cache_size_message(cache_len: nat, segments_len: nat) -> Seq<char> {
    "GraphV2::backward: cache size ("@ + decimal(cache_len) + ") != segments count ("@ + decimal(
        segments_len,
    ) + ")"@
}

/// The refusal of a connector's saved state that does not hold what its
/// backward pass reads.
pub open spec fn bad_state_text(idx: usize, label: Seq<char>, inputs: nat, pre: nat) -> Seq<char> {
    segment_head("GraphV2::backward"@, idx, label) + "bad forward state (inputs="@ + decimal(inputs) + ", pre="@
        + decimal(pre) + ")"@
}

fn bad_state_message(idx: usize, label: &str, inputs: usize, pre: usize) -> (r: String)
    ensures
        r@ == bad_state_text(idx, label@, inputs as nat, pre as nat),
{
    let mut m = segment_message("GraphV2::backward", idx, label, "bad forward state (inputs=");
    push_decimal(&mut m, inputs);
    m.append(", pre=");
    push_decimal(&mut m, pre);
    m.append(")");
    assert(m@ =~= bad_state_text(idx, label@, inputs as nat, pre as nat));
    m
}

/// The refusal of the backward step of a segment with its saved state on
/// `n` gradients.
pub open spec fn backward_refusal(seg: SegmentV2, state: SegmentForwardStateV2, n: nat) -> Seq<char> {
    match (seg@.kind, state) {
        (SegmentKindSpec::Universal { .. }, SegmentForwardStateV2::Universal { .. }) => if seg_stream(
            seg,
            n,
        ) is None {
            stream_index_message("GraphV2::backward"@, seg.index, "Universal"@, seg@.stream_indices, n as usize)
        } else {
            "GraphV2::backward"@ + ": segment "@ + decimal(seg.index as nat) + " has no slices"@
        },
        (SegmentKindSpec::DimOp { .. }, SegmentForwardStateV2::Stateless) => stream_index_message(
            "GraphV2::backward"@,
            seg.index,
            "DimOp"@,
            seg@.stream_indices,
            n as usize,
        ),
        (SegmentKindSpec::Connector { conn }, SegmentForwardStateV2::Connector { inputs, pre }) => match conn {
            ConnectorSpec::Splitter { .. } => if n != 2 {
                segment_head("GraphV2::backward"@, seg.index, "Splitter"@) + "expected 2 grad streams, got "@ + decimal(n)
            } else {
                bad_state_text(seg.index, "Splitter"@, inputs@.len(), pre@.len())
            },
            ConnectorSpec::Combiner { .. } => if n != 1 {
                segment_head("GraphV2::backward"@, seg.index, "Combiner"@) + "expected 1 grad stream, got "@ + decimal(n)
            } else {
                bad_state_text(seg.index, "Combiner"@, inputs@.len(), pre@.len())
            },
        },
        (SegmentKindSpec::Connector { .. }, SegmentForwardStateV2::Stateless) => "GraphV2::backward"@
            + ": segment "@ + decimal(seg.index as nat) + " (Connector) has no forward state"@,
        _ => "GraphV2::backward"@ + ": segment "@ + decimal(seg.index as nat)
            + " state mismatch (kind vs forward state)"@,
    }
}

/// The refusal of an answer to the backward job of a segment: a failure is
/// passed on after the segment, any other unfitting answer is unexpected.
pub open spec fn backward_answer_error(seg: SegmentV2, result: JobResult) -> Seq<char> {
    let label = match seg@.kind {
        SegmentKindSpec::DimOp { .. } => "DimOp inverse"@,
        _ => segment_label(seg),
    };
    let head = segment_head("GraphV2::backward"@, seg.index, label);
    match result {
        JobResult::Failed(msg) => head + msg@,
        _ => head + "unexpected JobResult"@,
    }
}

/// Starts a backward pass: the cache must hold one state per segment; the
/// streams start as the single output gradient.
pub fn start_backward(
    cache: &ForwardCacheV2,
    segments: &Vec<SegmentV2>,
    grad_output: MatrixBufferHandle,
) -> (r: Result<Vec<MatrixBufferHandle>, String>)
    ensures
        r is Err <==> cache.segment_states@.len() != segments@.len(),
        r matches Err(e) ==> e@ == cache_size_message(cache.segment_states@.len(), segments@.len()),
        r matches Ok(s) ==> s@ == seq![grad_output],
{
    if cache.segment_states.len() != segments.len() {
        let mut m = "GraphV2::backward: cache size (".to_string();
        push_decimal(&mut m, cache.segment_states.len());
        m.append(") != segments count (");
        push_decimal(&mut m, segments.len());
        m.append(")");
        assert(m@ =~= cache_size_message(cache.segment_states@.len(), segments@.len()));
        return Err(m);
    }
    let mut streams: Vec<MatrixBufferHandle> = Vec::new();
    streams.push(grad_output);
    assert(streams@ =~= seq![grad_output]);
    Ok(streams)
}

/// True when the backward step of a segment refuses its saved state or the current gradients.
pub open spec fn backward_refuses(seg: SegmentV2, state: SegmentForwardStateV2, streams_len: nat) -> bool {
    match (seg@.kind, state) {
        (SegmentKindSpec::Universal { slices, .. }, SegmentForwardStateV2::Universal { .. }) =>
            seg_stream(seg, streams_len) is None || slices.len() == 0,
        (SegmentKindSpec::DimOp { .. }, SegmentForwardStateV2::Stateless) => seg_stream(
            seg,
            streams_len,
        ) is None,
        (SegmentKindSpec::Connector { conn }, SegmentForwardStateV2::Connector { inputs, pre }) =>
            match conn {
            ConnectorSpec::Splitter { .. } => streams_len != 2 || inputs@.len() != 1 || pre@.len()
                != 2,
            ConnectorSpec::Combiner { .. } => streams_len != 1 || inputs@.len() != 2 || pre@.len()
                != 1,
        },
        _ => true,
    }
}

/// The buffers a connector's backward job reads again.
pub open spec fn backward_saved(state: SegmentForwardStateV2, conn: ConnectorSpec) -> Seq<MatrixBufferHandle> {
    match state {
        SegmentForwardStateV2::Connector { inputs, pre } => match conn {
            ConnectorSpec::Splitter { .. } => seq![inputs@[0], pre@[0], pre@[1]],
            ConnectorSpec::Combiner { .. } => seq![inputs@[0], inputs@[1], pre@[0]],
        },
        _ => Seq::empty(),
    }
}

/// The job of the backward pass of segment `seg` with its saved state on the
/// gradients `streams`: a universal segment gets its layers, slices,
/// parameter and gradient buffers, the gradient of its stream and its saved
/// contexts; a dimension change gets the inverse change back to its input
/// dimensions; a connector gets its kind, its buffers, the gradients and what
/// its forward pass kept.
pub open spec fn backward_job_ok(
    seg: SegmentV2,
    state: SegmentForwardStateV2,
    streams: Seq<MatrixBufferHandle>,
    store: StoreSpec,
    job: Job,
) -> bool {
    match job {
        Job::BackwardSegment(j) => {
            &&& seg@.kind matches SegmentKindSpec::Universal { layers, slices } && layers_view(
                j.layers@,
            ) == layers && j.slices@ == slices
            &&& j.segment_index == seg.index
            &&& j.params == store.buffers[first_slice(seg)->0.buffer_idx as int].params
            &&& j.grad_params == store.buffers[first_slice(
                seg,
            )->0.buffer_idx as int].grads
            &&& j.grad_output == streams[seg_stream(seg, streams.len())->0 as int]
            &&& state matches SegmentForwardStateV2::Universal { contexts }
            &&& chunks_view(&j.contexts) == chunks_view(&state->contexts)
            &&& layout_view(&j.contexts) == layout_view(&state->contexts)
            &&& (j.contexts is Sequential) == (state->contexts is Sequential)
        },
        Job::DimOp(j) => {
            &&& seg@.kind matches SegmentKindSpec::DimOp { unsqueeze, .. } && dim_op_view(
                &j.kind,
            ) == (!unsqueeze, seg@.input)
            &&& j.input == streams[seg_stream(seg, streams.len())->0 as int]
        },
        Job::ConnectorOp(j) => {
            &&& seg@.kind matches SegmentKindSpec::Connector { conn } && connector_view(&j.kind)
                == conn && j.saved@ == backward_saved(state, conn)
            &&& j.direction == ConnectorDirection::Backward
            &&& j.params == Some(
                store.buffers[first_slice(seg)->0.buffer_idx as int].params,
            )
            &&& j.grad_params == Some(
                store.buffers[first_slice(seg)->0.buffer_idx as int].grads,
            )
            &&& j.inputs@ == streams
        },
        _ => false,
    }
}

/// The job that runs the backward pass of one segment on the current gradients.
pub fn backward_segment_job(
    seg: &SegmentV2,
    state: &SegmentForwardStateV2,
    streams: &Vec<MatrixBufferHandle>,
    param_store: &ParamStore,
) -> (r: Result<Job, String>)
    requires
        params_in_store(*seg, param_store@),
    ensures
        r is Err <==> backward_refuses(*seg, *state, streams@.len()),
        r matches Err(e) ==> e@ == backward_refusal(*seg, *state, streams@.len()),
        r matches Ok(job) ==> backward_job_ok(*seg, *state, streams@, param_store@, job),
{
    match (&seg.kind, state) {
        (SegmentKindV2::Universal { layers, slices }, SegmentForwardStateV2::Universal { contexts }) => {
            let idx = stream_index_for(
                "GraphV2::backward",
                seg.index,
                match &seg.stream_indices {
                    Some(v) => Some(v.as_slice()),
                    None => None,
                },
                streams.len(),
                "Universal",
            )?;
            if slices.len() == 0 {
                return Err(segment_note("GraphV2::backward", seg.index, " has no slices"));
            }
            let params = param_store.params_handle(&slices[0]);
            let grad_params = param_store.grads_handle(&slices[0]);
            Ok(
                Job::BackwardSegment(
                    BackwardSegmentJob {
                        segment_index: seg.index,
                        layers: copy_layers(layers),
                        slices: copy_slices(slices),
                        params,
                        grad_params,
                        grad_output: streams[idx],
                        contexts: contexts.copy(),
                    },
                ),
            )
        },
        (SegmentKindV2::DimOp { kind }, SegmentForwardStateV2::Stateless) => {
            let idx = stream_index_for(
                "GraphV2::backward",
                seg.index,
                match &seg.stream_indices {
                    Some(v) => Some(v.as_slice()),
                    None => None,
                },
                streams.len(),
                "DimOp",
            )?;
            let inverse = match kind {
                DimOpKind::Unsqueeze(_) => DimOpKind::ReduceMean(copy_dims(&seg.input_shape)),
                DimOpKind::ReduceMean(_) => DimOpKind::Unsqueeze(copy_dims(&seg.input_shape)),
            };
            Ok(Job::DimOp(DimOpJob { kind: inverse, input: streams[idx] }))
        },
        (SegmentKindV2::Connector { kind }, SegmentForwardStateV2::Connector { inputs, pre }) => {
            let (k, slice, saved) = match kind {
                ConnectorOpKind::Splitter { input_dim, output_dims, slice } => {
                    if streams.len() != 2 {
                        return Err(
                            segment_count_message(
                                "GraphV2::backward",
                                seg.index,
                                "Splitter",
                                "expected 2 grad streams, got ",
                                streams.len(),
                            ),
                        );
                    }
                    if inputs.len() != 1 || pre.len() != 2 {
                        return Err(bad_state_message(seg.index, "Splitter", inputs.len(), pre.len()));
                    }
                    let mut saved: Vec<MatrixBufferHandle> = Vec::new();
                    saved.push(inputs[0]);
                    saved.push(pre[0]);
                    saved.push(pre[1]);
                    proof {
                        assert(saved@ =~= seq![inputs@[0], pre@[0], pre@[1]]);
                    }
                    (
                        ConnectorOpKind::Splitter {
                            input_dim: *input_dim,
                            output_dims: copy_dims(output_dims),
                            slice: *slice,
                        },
                        *slice,
                        saved,
                    )
                },
                ConnectorOpKind::Combiner { input_dim, output_dim, slice } => {
                    if streams.len() != 1 {
                        return Err(
                            segment_count_message(
                                "GraphV2::backward",
                                seg.index,
                                "Combiner",
                                "expected 1 grad stream, got ",
                                streams.len(),
                            ),
                        );
                    }
                    if inputs.len() != 2 || pre.len() != 1 {
                        return Err(bad_state_message(seg.index, "Combiner", inputs.len(), pre.len()));
                    }
                    let mut saved: Vec<MatrixBufferHandle> = Vec::new();
                    saved.push(inputs[0]);
                    saved.push(inputs[1]);
                    saved.push(pre[0]);
                    proof {
                        assert(saved@ =~= seq![inputs@[0], inputs@[1], pre@[0]]);
                    }
                    (
                        ConnectorOpKind::Combiner {
                            input_dim: *input_dim,
                            output_dim: *output_dim,
                            slice: *slice,
                        },
                        *slice,
                        saved,
                    )
                },
            };
            let params = param_store.params_handle(&slice);
            let grad_params = param_store.grads_handle(&slice);
            Ok(
                Job::ConnectorOp(
                    ConnectorOpJob {
                        direction: ConnectorDirection::Backward,
                        kind: k,
                        inputs: copy_handles(streams),
                        params: Some(params),
                        grad_params: Some(grad_params),
                        saved,
                    },
                ),
            )
        },
        (SegmentKindV2::Connector { .. }, SegmentForwardStateV2::Stateless) => Err(
            segment_note("GraphV2::backward", seg.index, " (Connector) has no forward state"),
        ),
        (_, _) => Err(segment_note("GraphV2::backward", seg.index, " state mismatch (kind vs forward state)")),
    }
}

/// The gradients after the backward step of a segment, given what the
/// distributor answered; `None` when the answer is a failure or does not fit.
pub open spec fn backward_outcome(
    seg: SegmentV2,
    streams: Seq<MatrixBufferHandle>,
    result: JobResult,
) -> Option<Seq<MatrixBufferHandle>> {
    match seg@.kind {
        SegmentKindSpec::Universal { .. } => match result {
            JobResult::Backward { grad_input } => Some(
                streams.update(seg_stream(seg, streams.len())->0 as int, grad_input),
            ),
            _ => None,
        },
        SegmentKindSpec::DimOp { .. } => match result {
            JobResult::Buffer(out) => Some(
                streams.update(seg_stream(seg, streams.len())->0 as int, out),
            ),
            _ => None,
        },
        SegmentKindSpec::Connector { .. } => match result {
            JobResult::Buffers(outs) => Some(outs@),
            _ => None,
        },
    }
}

/// A connector's backward answer is handed on as it comes: gradient `k` of
/// the answer becomes the gradient of input stream `k`, and there are as many
/// gradients as the answer holds.
pub proof fn law_connector_backward_hands_gradients_in_order(
    seg: SegmentV2,
    streams: Seq<MatrixBufferHandle>,
    outs: Vec<MatrixBufferHandle>,
)
    requires
        seg@.kind is Connector,
    ensures
        backward_outcome(seg, streams, JobResult::Buffers(outs)) matches Some(grads) && grads.len() == outs@.len()
            && forall|k: int| 0 <= k < outs@.len() ==> #[trigger] grads[k] == outs@[k],
{
}

/// Applies the distributor's answer for the backward step of a segment.
pub fn backward_segment_result(
    seg: &SegmentV2,
    state: &SegmentForwardStateV2,
    streams: Vec<MatrixBufferHandle>,
    result: JobResult,
) -> (r: Result<Vec<MatrixBufferHandle>, String>)
    requires
        !backward_refuses(*seg, *state, streams@.len()),
    ensures
        r is Err <==> backward_outcome(*seg, streams@, result) is None,
        r matches Err(e) ==> e@ == backward_answer_error(*seg, result),
        r matches Ok(s) ==> s@ == backward_outcome(*seg, streams@, result).unwrap(),
{
    match &seg.kind {
        SegmentKindV2::Universal { .. } => {
            let idx = stream_index_for(
                "GraphV2::backward",
                seg.index,
                match &seg.stream_indices {
                    Some(v) => Some(v.as_slice()),
                    None => None,
                },
                streams.len(),
                "Universal",
            )?;
            match result {
                JobResult::Backward { grad_input } => {
                    let mut new_streams = streams;
                    new_streams.set(idx, grad_input);
                    Ok(new_streams)
                },
                JobResult::Failed(msg) => Err(segment_message("GraphV2::backward", seg.index, "Universal", msg.as_str())),
                _ => Err(segment_message("GraphV2::backward", seg.index, "Universal", "unexpected JobResult")),
            }
        },
        SegmentKindV2::DimOp { .. } => {
            let idx = stream_index_for(
                "GraphV2::backward",
                seg.index,
                match &seg.stream_indices {
                    Some(v) => Some(v.as_slice()),
                    None => None,
                },
                streams.len(),
                "DimOp",
            )?;
            match result {
                JobResult::Buffer(out) => {
                    let mut new_streams = streams;
                    new_streams.set(idx, out);
                    Ok(new_streams)
                },
                JobResult::Failed(msg) => Err(segment_message("GraphV2::backward", seg.index, "DimOp inverse", msg.as_str())),
                _ => Err(segment_message("GraphV2::backward", seg.index, "DimOp inverse", "unexpected JobResult")),
            }
        },
        SegmentKindV2::Connector { kind } => match result {
            JobResult::Buffers(outputs) => Ok(outputs),
            JobResult::Failed(msg) => Err(
                segment_message("GraphV2::backward", seg.index, connector_label(kind), msg.as_str()),
            ),
            _ => Err(segment_message("GraphV2::backward", seg.index, connector_label(kind), "unexpected JobResult")),
        },
    }
}

/// Ends a backward pass: exactly one input gradient must remain.
pub fn finish_backward(streams: Vec<MatrixBufferHandle>) -> (r: Result<MatrixBufferHandle, String>)
    ensures
        r is Err <==> streams@.len() != 1,
        r matches Err(e) ==> e@ == "GraphV2::backward: expected single input gradient, got "@ + decimal(
            streams@.len(),
        ),
        r matches Ok(g) ==> g == streams@[0],
{
    if streams.len() != 1 {
        return Err(count_message("GraphV2::backward: expected single input gradient, got ", streams.len()));
    }
    Ok(streams[0])
}

/// One successful backward step: the segment accepts its saved state and the
/// gradients, its job is built from them, `dispatch` answered that job with
/// `result`, and the answer turns the gradients into `next`.
pub open spec fn backward_step_ok<F: Fn(Job) -> JobResult>(
    dispatch: F,
    store: StoreSpec,
    seg: SegmentV2,
    state: SegmentForwardStateV2,
    grads: Seq<MatrixBufferHandle>,
    job: Job,
    result: JobResult,
    next: Seq<MatrixBufferHandle>,
) -> bool {
    &&& !backward_refuses(seg, state, grads.len())
    &&& backward_job_ok(seg, state, grads, store, job)
    &&& call_ensures(dispatch, (job,), result)
    &&& backward_outcome(seg, grads, result) == Some(next)
}

/// The last `t` segments ran backward, last one first: the gradients start
/// as the output gradient alone, and step `i` took segment
/// `segs.len() - 1 - i` with its saved state from `grads[i]` to `grads[i + 1]`
/// through job `jobs[i]` and answer `rs[i]`.
pub open spec fn backward_trace<F: Fn(Job) -> JobResult>(
    dispatch: F,
    store: StoreSpec,
    segs: Seq<SegmentV2>,
    states: Seq<SegmentForwardStateV2>,
    grad_output: MatrixBufferHandle,
    jobs: Seq<Job>,
    rs: Seq<JobResult>,
    grads: Seq<Seq<MatrixBufferHandle>>,
    t: nat,
) -> bool {
    &&& t <= segs.len()
    &&& states.len() == segs.len()
    &&& jobs.len() == t && rs.len() == t && grads.len() == t + 1
    &&& grads[0] == seq![grad_output]
    &&& forall|i: int|
        0 <= i < t ==> #[trigger] backward_step_ok(
            dispatch,
            store,
            segs[segs.len() - 1 - i],
            states[segs.len() - 1 - i],
            grads[i],
            jobs[i],
            rs[i],
            grads[i + 1],
        )
}

/// The backward pass stops at step `t` after `t` steps ran: the segment
/// refuses its state or the gradients, or `dispatch` answered its job with
/// `result` and the answer does not fit.
pub open spec fn backward_fails_at<F: Fn(Job) -> JobResult>(
    dispatch: F,
    store: StoreSpec,
    segs: Seq<SegmentV2>,
    states: Seq<SegmentForwardStateV2>,
    grad_output: MatrixBufferHandle,
    jobs: Seq<Job>,
    rs: Seq<JobResult>,
    grads: Seq<Seq<MatrixBufferHandle>>,
    t: nat,
    job: Job,
    result: JobResult,
) -> bool {
    let k = segs.len() - 1 - t;
    &&& backward_trace(dispatch, store, segs, states, grad_output, jobs, rs, grads, t)
    &&& t < segs.len()
    &&& (backward_refuses(segs[k], states[k], grads[t as int].len()) || {
        &&& backward_job_ok(segs[k], states[k], grads[t as int], store, job)
        &&& call_ensures(dispatch, (job,), result)
        &&& backward_outcome(segs[k], grads[t as int], result) is None
    })
}

proof fn lemma_backward_trace_push<F: Fn(Job) -> JobResult>(
    dispatch: F,
    store: StoreSpec,
    segs: Seq<SegmentV2>,
    states: Seq<SegmentForwardStateV2>,
    grad_output: MatrixBufferHandle,
    jobs: Seq<Job>,
    rs: Seq<JobResult>,
    grads: Seq<Seq<MatrixBufferHandle>>,
    t: nat,
    job: Job,
    result: JobResult,
    next: Seq<MatrixBufferHandle>,
)
    requires
        backward_trace(dispatch, store, segs, states, grad_output, jobs, rs, grads, t),
        t < segs.len(),
        backward_step_ok(
            dispatch,
            store,
            segs[segs.len() - 1 - t],
            states[segs.len() - 1 - t],
            grads[t as int],
            job,
            result,
            next,
        ),
    ensures
        backward_trace(dispatch, store, segs, states, grad_output, jobs.push(job), rs.push(result), grads.push(next), t + 1),
{
    let (j2, r2, g2) = (jobs.push(job), rs.push(result), grads.push(next));
    assert forall|i: int| 0 <= i < t + 1 implies #[trigger] backward_step_ok(
        dispatch,
        store,
        segs[segs.len() - 1 - i],
        states[segs.len() - 1 - i],
        g2[i],
        j2[i],
        r2[i],
        g2[i + 1],
    ) by {
        if i < t {
            assert(g2[i] == grads[i] && g2[i + 1] == grads[i + 1] && j2[i] == jobs[i] && r2[i] == rs[i]);
        } else {
            assert(g2[i] == grads[i] && g2[i + 1] == next && j2[i] == job && r2[i] == result);
        }
    }
}

/// Runs the backward pass of a graph: the segments in reverse order, each one
/// turned into its job with the state its forward pass saved, the job handed
/// to `dispatch` once, and the answer applied to the gradients.
///
/// A cache that does not hold one state per segment is refused before any
/// job. On success there is a trace of the whole pass, last segment first:
/// every segment accepted its state and gradients, got exactly the job
/// `backward_segment_job` builds, and its answer took the gradients to the
/// next ones; the pass ends with the single input gradient it returns. On
/// failure after the size check, the pass stopped at a segment that refused
/// or whose answer did not fit, or it ended with other than one gradient.
pub fn run_backward<F: Fn(Job) -> JobResult>(
    dispatch: &F,
    param_store: &ParamStore,
    segments: &Vec<SegmentV2>,
    cache: &ForwardCacheV2,
    grad_output: MatrixBufferHandle,
) -> (r: Result<MatrixBufferHandle, String>)
    requires
        forall|j: Job| dispatch.requires((j,)),
        forall|k: int| 0 <= k < segments@.len() ==> params_in_store(#[trigger] segments@[k], param_store@),
    ensures
        cache.segment_states@.len() != segments@.len() ==> (r matches Err(e) && e@
            == cache_size_message(cache.segment_states@.len(), segments@.len())),
        r matches Ok(g) ==> exists|jobs: Seq<Job>, rs: Seq<JobResult>, grads: Seq<Seq<MatrixBufferHandle>>|
            #[trigger] backward_trace(
                *dispatch,
                param_store@,
                segments@,
                cache.segment_states@,
                grad_output,
                jobs,
                rs,
                grads,
                segments@.len(),
            ) && grads.last() == seq![g],
        r is Err && cache.segment_states@.len() == segments@.len() ==> (exists|
            jobs: Seq<Job>,
            rs: Seq<JobResult>,
            grads: Seq<Seq<MatrixBufferHandle>>,
            t: nat,
            job: Job,
            result: JobResult,
        |
            #[trigger] backward_fails_at(
                *dispatch,
                param_store@,
                segments@,
                cache.segment_states@,
                grad_output,
                jobs,
                rs,
                grads,
                t,
                job,
                result,
            )) || (exists|jobs: Seq<Job>, rs: Seq<JobResult>, grads: Seq<Seq<MatrixBufferHandle>>|
            #[trigger] backward_trace(
                *dispatch,
                param_store@,
                segments@,
                cache.segment_states@,
                grad_output,
                jobs,
                rs,
                grads,
                segments@.len(),
            ) && grads.last().len() != 1),
        segments@.len() == 0 && cache.segment_states@.len() == 0 ==> r == Ok::<MatrixBufferHandle, String>(grad_output),
        segments@.len() > 0 && cache.segment_states@.len() == segments@.len() && backward_refuses(
            segments@.last(),
            cache.segment_states@.last(),
            1,
        ) ==> r is Err,
{
    let mut streams = start_backward(cache, segments, grad_output)?;
    let ghost store = param_store@;
    let ghost segs = segments@;
    let ghost sts = cache.segment_states@;
    let ghost mut gjobs: Seq<Job> = Seq::empty();
    let ghost mut grs: Seq<JobResult> = Seq::empty();
    let ghost mut ggrads: Seq<Seq<MatrixBufferHandle>> = seq![streams@];
    let n = segments.len();
    let mut i: usize = n;
    while i > 0
        invariant
            i <= n,
            n == segments@.len(),
            n == cache.segment_states@.len(),
            segs == segments@,
            sts == cache.segment_states@,
            store == param_store@,
            i == n ==> streams@ == seq![grad_output],
            i < n ==> !backward_refuses(segments@[n - 1], cache.segment_states@[n - 1], 1),
            backward_trace(*dispatch, store, segs, sts, grad_output, gjobs, grs, ggrads, (n - i) as nat),
            ggrads.last() == streams@,
            forall|j: Job| dispatch.requires((j,)),
            forall|k: int| 0 <= k < segments@.len() ==> params_in_store(#[trigger] segments@[k], param_store@),
        decreases i,
    {
        let k = i - 1;
        let seg = &segments[k];
        let state = &cache.segment_states[k];
        let ghost t = (n - i) as nat;
        proof {
            assert(params_in_store(segments@[k as int], param_store@));
            assert(segs[segs.len() - 1 - t] == *seg);
            assert(sts[segs.len() - 1 - t] == *state);
            assert(ggrads[t as int] == streams@);
        }
        let job = match backward_segment_job(seg, state, &streams, param_store) {
            Ok(j) => j,
            Err(e) => {
                proof {
                    let dj = Job::Migrate(MigrateJob { handle: grad_output, target: grad_output.location });
                    let dr = JobResult::Unit;
                    assert(backward_fails_at(*dispatch, store, segs, sts, grad_output, gjobs, grs, ggrads, t, dj, dr));
                }
                return Err(e);
            },
        };
        let ghost gj = job;
        let result = dispatch(job);
        let ghost gr = result;
        match backward_segment_result(seg, state, streams, result) {
            Ok(next) => {
                proof {
                    assert(backward_step_ok(*dispatch, store, segs[segs.len() - 1 - t], sts[segs.len() - 1 - t], ggrads[t as int], gj, gr, next@));
                    lemma_backward_trace_push(*dispatch, store, segs, sts, grad_output, gjobs, grs, ggrads, t, gj, gr, next@);
                    gjobs = gjobs.push(gj);
                    grs = grs.push(gr);
                    ggrads = ggrads.push(next@);
                }
                streams = next;
            },
            Err(e) => {
                proof {
                    assert(backward_fails_at(*dispatch, store, segs, sts, grad_output, gjobs, grs, ggrads, t, gj, gr));
                }
                return Err(e);
            },
        }
        i = k;
    }
    finish_backward(streams)
}

} // verus!

verus! {

/// A segment whose forward step succeeded accepts, in the backward step, the
/// state that forward step saved and one gradient per forward output.
pub proof fn law_backward_accepts_forward_state(
    seg: SegmentV2,
    streams: Seq<MatrixBufferHandle>,
    result: JobResult,
    state: SegmentForwardStateV2,
    grads_len: nat,
)
    requires
        !crate::forward::forward_refuses(seg, streams.len()),
        crate::forward::forward_outcome(seg, streams, result) is Some,
        seg@.kind is Connector ==> (state matches SegmentForwardStateV2::Connector { inputs, pre }
            && (inputs@, pre@) == crate::forward::connector_saved(seg, streams, result)),
        !(seg@.kind is Connector) ==> state == crate::forward::forward_outcome(seg, streams, result).unwrap().1,
        grads_len == crate::forward::forward_outcome(seg, streams, result).unwrap().0.len(),
    ensures
        !backward_refuses(seg, state, grads_len),
{
}

} // verus!

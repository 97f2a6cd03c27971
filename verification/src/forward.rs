use vstd::prelude::*;
use crate::buffer::MatrixBufferHandle;
use crate::graph::{
    ForwardCacheV2, SegmentForwardStateV2, SegmentKindSpec, SegmentKindV2, SegmentV2, segment_kind_view,
};
use crate::jobs::{
    ConnectorDirection, ConnectorOpJob, ConnectorOpKind, ConnectorSpec, DimOpJob, DimOpKind,
    ForwardSegmentJob, Job, JobResult, MigrateJob, connector_view, copy_layers, copy_slices, dim_op_view,
    layers_view,
};
use crate::layer::{copy_dims, copy_opt_dims, opt_dims_view};
use crate::param_store::{ParamSlice, ParamStore, StoreSpec};
use crate::context::copy_handles;
use crate::text::{count_message, decimal, decimal_list, push_decimal, push_decimal_list, segment_count_message, segment_head, segment_message, segment_note};

verus! {

/// The stream a universal or dimension segment works on: the single listed
/// index, or stream 0 when no index is listed; `None` when the list does not
/// hold exactly one index or the index is out of range.
pub open spec fn stream_index(indices: Option<Seq<usize>>, streams_len: nat) -> Option<usize> {
    match indices {
        Some(s) => if s.len() == 1 && (s[0] as nat) < streams_len {
            Some(s[0])
        } else {
            None
        },
        None => if 0 < streams_len {
            Some(0usize)
        } else {
            None
        },
    }
}

/// The refusal of a stream selection in pass `pass` for segment `seg_index`
/// of kind `kind`: more or fewer than one listed index, or an index past the
/// streams.
pub open spec fn stream_index_message(
    pass: Seq<char>,
    seg_index: usize,
    kind: Seq<char>,
    indices: Option<Seq<usize>>,
    streams_len: usize,
) -> Seq<char> {
    let head = pass + ": segment "@ + decimal(seg_index as nat) + " ("@ + kind + "): "@;
    match indices {
        Some(s) if s.len() != 1 => head + "stream_indices must be a single index, got "@ + decimal_list(s),
        _ => {
            let idx: usize = match indices {
                Some(s) => s[0],
                None => 0,
            };
            head + "stream index "@ + decimal(idx as nat) + " out of range ("@ + decimal(streams_len as nat)
                + " streams)"@
        },
    }
}

/// Selects the stream a universal or dimension segment works on in pass
/// `pass`; the refusal names the pass, the segment, its kind and the
/// offending indices.
pub fn stream_index_for(
    pass: &str,
    seg_index: usize,
    stream_indices: Option<&[usize]>,
    streams_len: usize,
    kind_name: &str,
) -> (r: Result<usize, String>)
    ensures
        match stream_index(
            match stream_indices {
                Some(s) => Some(s@),
                None => None,
            },
            streams_len as nat,
        ) {
            Some(i) => r == Ok::<usize, String>(i),
            None => r matches Err(e) && e@ == stream_index_message(
                pass@,
                seg_index,
                kind_name@,
                match stream_indices {
                    Some(s) => Some(s@),
                    None => None,
                },
                streams_len,
            ),
        },
{
    let mut head = pass.to_string();
    head.append(": segment ");
    push_decimal(&mut head, seg_index);
    head.append(" (");
    head.append(kind_name);
    head.append("): ");
    let ghost h = pass@ + ": segment "@ + decimal(seg_index as nat) + " ("@ + kind_name@ + "): "@;
    assert(head@ =~= h);
    let idx: usize = match stream_indices {
        Some(s) => {
            if s.len() != 1 {
                let mut msg = head;
                msg.append("stream_indices must be a single index, got ");
                push_decimal_list(&mut msg, s);
                assert(msg@ =~= h + "stream_indices must be a single index, got "@ + decimal_list(s@));
                return Err(msg);
            }
            s[0]
        },
        None => 0,
    };
    if idx >= streams_len {
        let mut msg = head;
        msg.append("stream index ");
        push_decimal(&mut msg, idx);
        msg.append(" out of range (");
        push_decimal(&mut msg, streams_len);
        msg.append(" streams)");
        assert(msg@ =~= h + "stream index "@ + decimal(idx as nat) + " out of range ("@ + decimal(
            streams_len as nat,
        ) + " streams)"@);
        return Err(msg);
    }
    Ok(idx)
}

/// Selects the stream a universal or dimension segment works on in the
/// forward pass.
pub fn single_stream_index(
    seg_index: usize,
    stream_indices: Option<&[usize]>,
    streams_len: usize,
    kind_name: &str,
) -> (r: Result<usize, String>)
    ensures
        match stream_index(
            match stream_indices {
                Some(s) => Some(s@),
                None => None,
            },
            streams_len as nat,
        ) {
            Some(i) => r == Ok::<usize, String>(i),
            None => r matches Err(e) && e@ == stream_index_message(
                "GraphV2::forward"@,
                seg_index,
                kind_name@,
                match stream_indices {
                    Some(s) => Some(s@),
                    None => None,
                },
                streams_len,
            ),
        },
{
    stream_index_for("GraphV2::forward", seg_index, stream_indices, streams_len, kind_name)
}

/// The first parameter slice of a universal segment.
pub open spec fn first_slice(seg: SegmentV2) -> Option<ParamSlice> {
    match seg@.kind {
        SegmentKindSpec::Universal { slices, .. } => if slices.len() > 0 {
            Some(slices[0])
        } else {
            None
        },
        SegmentKindSpec::Connector { conn } => match conn {
            ConnectorSpec::Splitter { slice, .. } => Some(slice),
            ConnectorSpec::Combiner { slice, .. } => Some(slice),
        },
        _ => None,
    }
}

/// The parameter slices of a segment point into the store.
pub open spec fn params_in_store(seg: SegmentV2, store: StoreSpec) -> bool {
    match first_slice(seg) {
        Some(s) => s.buffer_idx < store.buffers.len(),
        None => true,
    }
}

/// The stream index of a universal or dimension segment.
pub open spec fn seg_stream(seg: SegmentV2, streams_len: nat) -> Option<usize> {
    stream_index(seg@.stream_indices, streams_len)
}

/// True when the forward step of a segment refuses the current streams.
pub open spec fn forward_refuses(seg: SegmentV2, streams_len: nat) -> bool {
    match seg@.kind {
        SegmentKindSpec::Universal { slices, .. } => seg_stream(seg, streams_len) is None
            || slices.len() == 0,
        SegmentKindSpec::DimOp { .. } => seg_stream(seg, streams_len) is None,
        SegmentKindSpec::Connector { conn } => match conn {
            ConnectorSpec::Splitter { .. } => streams_len != 1,
            ConnectorSpec::Combiner { .. } => streams_len != 2,
        },
    }
}

/// The job of the forward pass of segment `seg` on the streams `streams`,
/// with parameters in `store` and the sample lengths `sample_lens`: a
/// universal segment gets its layers, slices, parameter buffer and the stream
/// it works on; a dimension change gets its target dimensions and that
/// stream; a connector gets its kind, its parameter buffer and all streams.
pub open spec fn forward_job_ok(
    seg: SegmentV2,
    streams: Seq<MatrixBufferHandle>,
    store: StoreSpec,
    sample_lens: Option<Seq<usize>>,
    job: Job,
) -> bool {
    match job {
        Job::ForwardSegment(j) => {
            &&& seg@.kind matches SegmentKindSpec::Universal { layers, slices } && layers_view(
                j.layers@,
            ) == layers && j.slices@ == slices
            &&& j.segment_index == seg.index
            &&& j.params == store.buffers[first_slice(seg)->0.buffer_idx as int].params
            &&& j.input == streams[seg_stream(seg, streams.len())->0 as int]
            &&& opt_dims_view(&j.sample_lens) == sample_lens
        },
        Job::DimOp(j) => {
            &&& seg@.kind matches SegmentKindSpec::DimOp { unsqueeze, dims } && dim_op_view(
                &j.kind,
            ) == (unsqueeze, dims)
            &&& j.input == streams[seg_stream(seg, streams.len())->0 as int]
        },
        Job::ConnectorOp(j) => {
            &&& seg@.kind matches SegmentKindSpec::Connector { conn } && connector_view(&j.kind)
                == conn
            &&& j.direction == ConnectorDirection::Forward
            &&& j.params == Some(
                store.buffers[first_slice(seg)->0.buffer_idx as int].params,
            )
            &&& j.grad_params is None
            &&& j.saved@.len() == 0
            &&& j.inputs@ == streams
        },
        _ => false,
    }
}

/// The refusal of the forward step of a segment on `n` streams.
pub open spec fn forward_refusal(seg: SegmentV2, n: nat) -> Seq<char> {
    match seg@.kind {
        SegmentKindSpec::Universal { .. } => if seg_stream(seg, n) is None {
            stream_index_message("GraphV2::forward"@, seg.index, "Universal"@, seg@.stream_indices, n as usize)
        } else {
            "GraphV2::forward"@ + ": segment "@ + decimal(seg.index as nat) + " has no slices"@
        },
        SegmentKindSpec::DimOp { .. } => stream_index_message(
            "GraphV2::forward"@,
            seg.index,
            "DimOp"@,
            seg@.stream_indices,
            n as usize,
        ),
        SegmentKindSpec::Connector { conn } => match conn {
            ConnectorSpec::Splitter { .. } => segment_head("GraphV2::forward"@, seg.index, "Splitter"@)
                + "expected single input stream, got "@ + decimal(n),
            ConnectorSpec::Combiner { .. } => segment_head("GraphV2::forward"@, seg.index, "Combiner"@)
                + "expected 2 input streams, got "@ + decimal(n),
        },
    }
}

/// The kind of a segment as messages name it.
pub open spec fn segment_label(seg: SegmentV2) -> Seq<char> {
    match seg@.kind {
        SegmentKindSpec::Universal { .. } => "Universal"@,
        SegmentKindSpec::DimOp { .. } => "DimOp"@,
        SegmentKindSpec::Connector { conn } => match conn {
            ConnectorSpec::Splitter { .. } => "Splitter"@,
            ConnectorSpec::Combiner { .. } => "Combiner"@,
        },
    }
}

/// The kind of a connector as messages name it.
pub fn connector_label(kind: &ConnectorOpKind) -> (r: &'static str)
    ensures
        r@ == match connector_view(kind) {
            ConnectorSpec::Splitter { .. } => "Splitter"@,
            ConnectorSpec::Combiner { .. } => "Combiner"@,
        },
{
    match kind {
        ConnectorOpKind::Splitter { .. } => "Splitter",
        ConnectorOpKind::Combiner { .. } => "Combiner",
    }
}

/// The refusal of an answer to the forward job of a segment: a failure is
/// passed on after the segment, a connector's wrong number of buffers is
/// counted, any other answer is unexpected.
pub open spec fn forward_answer_error(seg: SegmentV2, result: JobResult) -> Seq<char> {
    let head = segment_head("GraphV2::forward"@, seg.index, segment_label(seg));
    match result {
        JobResult::Failed(msg) => head + msg@,
        JobResult::Buffers(outs) => match seg@.kind {
            SegmentKindSpec::Connector { conn } => match conn {
                ConnectorSpec::Splitter { .. } => head + "expected 4 buffers (out_a, out_b, pre_a, pre_b), got "@
                    + decimal(outs@.len()),
                ConnectorSpec::Combiner { .. } => head + "expected 2 buffers (out, pre), got "@ + decimal(
                    outs@.len(),
                ),
            },
            _ => head + "unexpected JobResult"@,
        },
        _ => head + "unexpected JobResult"@,
    }
}

/// The job that runs the forward pass of one segment on the current streams.
pub fn forward_segment_job(
    seg: &SegmentV2,
    streams: &Vec<MatrixBufferHandle>,
    param_store: &ParamStore,
    sample_lens: &Option<Vec<usize>>,
) -> (r: Result<Job, String>)
    requires
        params_in_store(*seg, param_store@),
    ensures
        r is Err <==> forward_refuses(*seg, streams@.len()),
        r matches Err(e) ==> e@ == forward_refusal(*seg, streams@.len()),
        r matches Ok(job) ==> forward_job_ok(*seg, streams@, param_store@, opt_dims_view(sample_lens), job),
{
    match &seg.kind {
        SegmentKindV2::Universal { layers, slices } => {
            let idx = single_stream_index(
                seg.index,
                match &seg.stream_indices {
                    Some(v) => Some(v.as_slice()),
                    None => None,
                },
                streams.len(),
                "Universal",
            )?;
            if slices.len() == 0 {
                return Err(segment_note("GraphV2::forward", seg.index, " has no slices"));
            }
            let params = param_store.params_handle(&slices[0]);
            Ok(
                Job::ForwardSegment(
                    ForwardSegmentJob {
                        segment_index: seg.index,
                        layers: copy_layers(layers),
                        slices: copy_slices(slices),
                        params,
                        input: streams[idx],
                        sample_lens: copy_opt_dims(sample_lens),
                    },
                ),
            )
        },
        SegmentKindV2::DimOp { kind } => {
            let idx = single_stream_index(
                seg.index,
                match &seg.stream_indices {
                    Some(v) => Some(v.as_slice()),
                    None => None,
                },
                streams.len(),
                "DimOp",
            )?;
            let k = match kind {
                DimOpKind::Unsqueeze(d) => DimOpKind::Unsqueeze(copy_dims(d)),
                DimOpKind::ReduceMean(d) => DimOpKind::ReduceMean(copy_dims(d)),
            };
            Ok(Job::DimOp(DimOpJob { kind: k, input: streams[idx] }))
        },
        SegmentKindV2::Connector { kind } => {
            let k = match kind {
                ConnectorOpKind::Splitter { input_dim, output_dims, slice } => {
                    if streams.len() != 1 {
                        return Err(
                            segment_count_message(
                                "GraphV2::forward",
                                seg.index,
                                "Splitter",
                                "expected single input stream, got ",
                                streams.len(),
                            ),
                        );
                    }
                    ConnectorOpKind::Splitter {
                        input_dim: *input_dim,
                        output_dims: copy_dims(output_dims),
                        slice: *slice,
                    }
                },
                ConnectorOpKind::Combiner { input_dim, output_dim, slice } => {
                    if streams.len() != 2 {
                        return Err(
                            segment_count_message(
                                "GraphV2::forward",
                                seg.index,
                                "Combiner",
                                "expected 2 input streams, got ",
                                streams.len(),
                            ),
                        );
                    }
                    ConnectorOpKind::Combiner {
                        input_dim: *input_dim,
                        output_dim: *output_dim,
                        slice: *slice,
                    }
                },
            };
            let slice = match kind {
                ConnectorOpKind::Splitter { slice, .. } => *slice,
                ConnectorOpKind::Combiner { slice, .. } => *slice,
            };
            let params = param_store.params_handle(&slice);
            Ok(
                Job::ConnectorOp(
                    ConnectorOpJob {
                        direction: ConnectorDirection::Forward,
                        kind: k,
                        inputs: copy_handles(streams),
                        params: Some(params),
                        grad_params: None,
                        saved: Vec::new(),
                    },
                ),
            )
        },
    }
}

} // verus!

verus! {

/// The streams and the saved state after the forward step of a segment,
/// given what the distributor answered; `None` when the answer is a failure
/// or does not fit the segment.
pub open spec fn forward_outcome(
    seg: SegmentV2,
    streams: Seq<MatrixBufferHandle>,
    result: JobResult,
) -> Option<(Seq<MatrixBufferHandle>, SegmentForwardStateV2)> {
    match seg@.kind {
        SegmentKindSpec::Universal { .. } => match result {
            JobResult::Forward { output, contexts } => Some(
                (
                    streams.update(seg_stream(seg, streams.len())->0 as int, output),
                    SegmentForwardStateV2::Universal { contexts },
                ),
            ),
            _ => None,
        },
        SegmentKindSpec::DimOp { .. } => match result {
            JobResult::Buffer(out) => Some(
                (
                    streams.update(seg_stream(seg, streams.len())->0 as int, out),
                    SegmentForwardStateV2::Stateless,
                ),
            ),
            _ => None,
        },
        SegmentKindSpec::Connector { conn } => match result {
            JobResult::Buffers(outs) => match conn {
                ConnectorSpec::Splitter { .. } => if outs@.len() == 4 {
                    Some((seq![outs@[0], outs@[1]], SegmentForwardStateV2::Stateless))
                } else {
                    None
                },
                ConnectorSpec::Combiner { .. } => if outs@.len() == 2 {
                    Some((seq![outs@[0]], SegmentForwardStateV2::Stateless))
                } else {
                    None
                },
            },
            _ => None,
        },
    }
}

/// The buffers a connector keeps for its backward pass: its inputs and its
/// pre-activations.
pub open spec fn connector_saved(
    seg: SegmentV2,
    streams: Seq<MatrixBufferHandle>,
    result: JobResult,
) -> (Seq<MatrixBufferHandle>, Seq<MatrixBufferHandle>) {
    match (seg@.kind, result) {
        (SegmentKindSpec::Connector { conn }, JobResult::Buffers(outs)) => match conn {
            ConnectorSpec::Splitter { .. } => (seq![streams[0]], seq![outs@[2], outs@[3]]),
            ConnectorSpec::Combiner { .. } => (streams, seq![outs@[1]]),
        },
        _ => (Seq::empty(), Seq::empty()),
    }
}

/// A connector's forward answer is read in a fixed order. A splitter's four
/// buffers are its two output streams, in branch order, then their two
/// pre-activations; a combiner's two buffers are its one output stream, then
/// its pre-activation. The streams that continue are the outputs; what the
/// connector keeps for its backward pass is its inputs and the
/// pre-activations, never an output.
pub proof fn law_connector_forward_reads_outputs_first(
    seg: SegmentV2,
    streams: Seq<MatrixBufferHandle>,
    outs: Vec<MatrixBufferHandle>,
)
    ensures
        seg@.kind matches SegmentKindSpec::Connector { conn: ConnectorSpec::Splitter { .. } } && outs@.len() == 4
            ==> {
            &&& forward_outcome(seg, streams, JobResult::Buffers(outs)) matches Some((next, _))
            &&& next.len() == 2
            &&& next[0] == outs@[0]
            &&& next[1] == outs@[1]
            &&& connector_saved(seg, streams, JobResult::Buffers(outs)).0 == seq![streams[0]]
            &&& connector_saved(seg, streams, JobResult::Buffers(outs)).1 == seq![outs@[2], outs@[3]]
        },
        seg@.kind matches SegmentKindSpec::Connector { conn: ConnectorSpec::Combiner { .. } } && outs@.len() == 2
            ==> {
            &&& forward_outcome(seg, streams, JobResult::Buffers(outs)) matches Some((next, _))
            &&& next.len() == 1
            &&& next[0] == outs@[0]
            &&& connector_saved(seg, streams, JobResult::Buffers(outs)).0 == streams
            &&& connector_saved(seg, streams, JobResult::Buffers(outs)).1 == seq![outs@[1]]
        },
{
}

/// Applies the distributor's answer for the forward step of a segment.
pub fn forward_segment_result(
    seg: &SegmentV2,
    streams: Vec<MatrixBufferHandle>,
    result: JobResult,
) -> (r: Result<(Vec<MatrixBufferHandle>, SegmentForwardStateV2), String>)
    requires
        !forward_refuses(*seg, streams@.len()),
    ensures
        r is Err <==> forward_outcome(*seg, streams@, result) is None,
        r matches Err(e) ==> e@ == forward_answer_error(*seg, result),
        r matches Ok((s, st)) ==> {
            &&& s@ == forward_outcome(*seg, streams@, result).unwrap().0
            &&& seg@.kind is Connector ==> (st matches SegmentForwardStateV2::Connector { inputs, pre }
                && (inputs@, pre@) == connector_saved(*seg, streams@, result))
            &&& !(seg@.kind is Connector) ==> st == forward_outcome(*seg, streams@, result).unwrap().1
        },
{
    match &seg.kind {
        SegmentKindV2::Universal { .. } => {
            let idx = single_stream_index(
                seg.index,
                match &seg.stream_indices {
                    Some(v) => Some(v.as_slice()),
                    None => None,
                },
                streams.len(),
                "Universal",
            )?;
            match result {
                JobResult::Forward { output, contexts } => {
                    let mut new_streams = streams;
                    new_streams.set(idx, output);
                    Ok((new_streams, SegmentForwardStateV2::Universal { contexts }))
                },
                JobResult::Failed(msg) => Err(segment_message("GraphV2::forward", seg.index, "Universal", msg.as_str())),
                _ => Err(segment_message("GraphV2::forward", seg.index, "Universal", "unexpected JobResult")),
            }
        },
        SegmentKindV2::DimOp { .. } => {
            let idx = single_stream_index(
                seg.index,
                match &seg.stream_indices {
                    Some(v) => Some(v.as_slice()),
                    None => None,
                },
                streams.len(),
                "DimOp",
            )?;
            match result {
                JobResult::Buffer(out) => {
                    let mut new_streams = streams;
                    new_streams.set(idx, out);
                    Ok((new_streams, SegmentForwardStateV2::Stateless))
                },
                JobResult::Failed(msg) => Err(segment_message("GraphV2::forward", seg.index, "DimOp", msg.as_str())),
                _ => Err(segment_message("GraphV2::forward", seg.index, "DimOp", "unexpected JobResult")),
            }
        },
        SegmentKindV2::Connector { kind } => match result {
            JobResult::Buffers(outs) => match kind {
                ConnectorOpKind::Splitter { .. } => {
                    if outs.len() != 4 {
                        return Err(
                            segment_count_message(
                                "GraphV2::forward",
                                seg.index,
                                "Splitter",
                                "expected 4 buffers (out_a, out_b, pre_a, pre_b), got ",
                                outs.len(),
                            ),
                        );
                    }
                    let x = streams[0];
                    let mut inputs: Vec<MatrixBufferHandle> = Vec::new();
                    inputs.push(x);
                    let mut pre: Vec<MatrixBufferHandle> = Vec::new();
                    pre.push(outs[2]);
                    pre.push(outs[3]);
                    let mut next: Vec<MatrixBufferHandle> = Vec::new();
                    next.push(outs[0]);
                    next.push(outs[1]);
                    proof {
                        assert(inputs@ =~= seq![streams@[0]]);
                        assert(pre@ =~= seq![outs@[2], outs@[3]]);
                        assert(next@ =~= seq![outs@[0], outs@[1]]);
                    }
                    Ok((next, SegmentForwardStateV2::Connector { inputs, pre }))
                },
                ConnectorOpKind::Combiner { .. } => {
                    if outs.len() != 2 {
                        return Err(
                            segment_count_message(
                                "GraphV2::forward",
                                seg.index,
                                "Combiner",
                                "expected 2 buffers (out, pre), got ",
                                outs.len(),
                            ),
                        );
                    }
                    let mut pre: Vec<MatrixBufferHandle> = Vec::new();
                    pre.push(outs[1]);
                    let mut next: Vec<MatrixBufferHandle> = Vec::new();
                    next.push(outs[0]);
                    proof {
                        assert(pre@ =~= seq![outs@[1]]);
                        assert(next@ =~= seq![outs@[0]]);
                    }
                    Ok((next, SegmentForwardStateV2::Connector { inputs: streams, pre }))
                },
            },
            JobResult::Failed(msg) => Err(
                segment_message("GraphV2::forward", seg.index, connector_label(kind), msg.as_str()),
            ),
            _ => Err(segment_message("GraphV2::forward", seg.index, connector_label(kind), "unexpected JobResult")),
        },
    }
}

/// Ends a forward pass: the graph must leave exactly one stream, which is the output.
pub fn finish_forward(
    streams: Vec<MatrixBufferHandle>,
    segment_states: Vec<SegmentForwardStateV2>,
    batch: usize,
    sample_lens: Option<Vec<usize>>,
) -> (r: Result<(MatrixBufferHandle, ForwardCacheV2), String>)
    ensures
        r is Err <==> streams@.len() != 1,
        r matches Err(e) ==> e@ == "GraphV2::forward: expected single output stream, got "@ + decimal(
            streams@.len(),
        ),
        r matches Ok((out, cache)) ==> {
            &&& out == streams@[0]
            &&& cache.output == streams@[0]
            &&& cache.segment_states@ == segment_states@
            &&& cache.batch == batch
            &&& opt_dims_view(&cache.sample_lens) == opt_dims_view(&sample_lens)
        },
{
    if streams.len() != 1 {
        return Err(count_message("GraphV2::forward: expected single output stream, got ", streams.len()));
    }
    let output = streams[0];
    Ok((output, ForwardCacheV2 { segment_states, output, batch, sample_lens }))
}

/// The state a successful forward step keeps: what a connector's answer
/// leaves for its backward pass, or the state the outcome names.
pub open spec fn forward_state_ok(
    seg: SegmentV2,
    streams: Seq<MatrixBufferHandle>,
    result: JobResult,
    st: SegmentForwardStateV2,
) -> bool {
    if seg@.kind is Connector {
        st matches SegmentForwardStateV2::Connector { inputs, pre } && (inputs@, pre@) == connector_saved(
            seg,
            streams,
            result,
        )
    } else {
        st == forward_outcome(seg, streams, result).unwrap().1
    }
}

/// One successful forward step: the segment accepts the streams, its job is
/// built from them, `dispatch` answered that job with `result`, and the
/// answer turns the streams into `next` and leaves `state`.
pub open spec fn forward_step_ok<F: Fn(Job) -> JobResult>(
    dispatch: F,
    store: StoreSpec,
    sample_lens: Option<Seq<usize>>,
    seg: SegmentV2,
    streams: Seq<MatrixBufferHandle>,
    job: Job,
    result: JobResult,
    next: Seq<MatrixBufferHandle>,
    state: SegmentForwardStateV2,
) -> bool {
    &&& !forward_refuses(seg, streams.len())
    &&& forward_job_ok(seg, streams, store, sample_lens, job)
    &&& call_ensures(dispatch, (job,), result)
    &&& forward_outcome(seg, streams, result) matches Some((s, _)) && s == next
    &&& forward_state_ok(seg, streams, result, state)
}

/// The first `k` segments ran: the streams start as the input alone, and
/// segment `i` took `streams[i]` to `streams[i + 1]` through job `jobs[i]`
/// and answer `rs[i]`, keeping `states[i]`.
pub open spec fn forward_trace<F: Fn(Job) -> JobResult>(
    dispatch: F,
    store: StoreSpec,
    sample_lens: Option<Seq<usize>>,
    segs: Seq<SegmentV2>,
    input: MatrixBufferHandle,
    jobs: Seq<Job>,
    rs: Seq<JobResult>,
    streams: Seq<Seq<MatrixBufferHandle>>,
    states: Seq<SegmentForwardStateV2>,
    k: nat,
) -> bool {
    &&& k <= segs.len()
    &&& jobs.len() == k && rs.len() == k && states.len() == k && streams.len() == k + 1
    &&& streams[0] == seq![input]
    &&& forall|i: int|
        0 <= i < k ==> #[trigger] forward_step_ok(
            dispatch,
            store,
            sample_lens,
            segs[i],
            streams[i],
            jobs[i],
            rs[i],
            streams[i + 1],
            states[i],
        )
}

/// The pass stops at segment `k` after the first `k` ran: the segment
/// refuses the streams, or `dispatch` answered its job with `result` and the
/// answer does not fit.
pub open spec fn forward_fails_at<F: Fn(Job) -> JobResult>(
    dispatch: F,
    store: StoreSpec,
    sample_lens: Option<Seq<usize>>,
    segs: Seq<SegmentV2>,
    input: MatrixBufferHandle,
    jobs: Seq<Job>,
    rs: Seq<JobResult>,
    streams: Seq<Seq<MatrixBufferHandle>>,
    states: Seq<SegmentForwardStateV2>,
    k: nat,
    job: Job,
    result: JobResult,
) -> bool {
    &&& forward_trace(dispatch, store, sample_lens, segs, input, jobs, rs, streams, states, k)
    &&& k < segs.len()
    &&& (forward_refuses(segs[k as int], streams[k as int].len()) || {
        &&& forward_job_ok(segs[k as int], streams[k as int], store, sample_lens, job)
        &&& call_ensures(dispatch, (job,), result)
        &&& forward_outcome(segs[k as int], streams[k as int], result) is None
    })
}

proof fn lemma_forward_trace_push<F: Fn(Job) -> JobResult>(
    dispatch: F,
    store: StoreSpec,
    sample_lens: Option<Seq<usize>>,
    segs: Seq<SegmentV2>,
    input: MatrixBufferHandle,
    jobs: Seq<Job>,
    rs: Seq<JobResult>,
    streams: Seq<Seq<MatrixBufferHandle>>,
    states: Seq<SegmentForwardStateV2>,
    k: nat,
    job: Job,
    result: JobResult,
    next: Seq<MatrixBufferHandle>,
    state: SegmentForwardStateV2,
)
    requires
        forward_trace(dispatch, store, sample_lens, segs, input, jobs, rs, streams, states, k),
        k < segs.len(),
        forward_step_ok(dispatch, store, sample_lens, segs[k as int], streams[k as int], job, result, next, state),
    ensures
        forward_trace(
            dispatch,
            store,
            sample_lens,
            segs,
            input,
            jobs.push(job),
            rs.push(result),
            streams.push(next),
            states.push(state),
            k + 1,
        ),
{
    let (j2, r2, s2, t2) = (jobs.push(job), rs.push(result), streams.push(next), states.push(state));
    assert forall|i: int| 0 <= i < k + 1 implies #[trigger] forward_step_ok(
        dispatch,
        store,
        sample_lens,
        segs[i],
        s2[i],
        j2[i],
        r2[i],
        s2[i + 1],
        t2[i],
    ) by {
        if i < k {
            assert(s2[i] == streams[i] && s2[i + 1] == streams[i + 1] && j2[i] == jobs[i] && r2[i] == rs[i] && t2[i] == states[i]);
        } else {
            assert(s2[i] == streams[i] && s2[i + 1] == next && j2[i] == job && r2[i] == result && t2[i] == state);
        }
    }
}

/// Runs the forward pass of a graph: the segments in order, each one turned
/// into its job, the job handed to `dispatch` once, and the answer applied to
/// the streams.
///
/// On success there is a trace of the whole pass: every segment accepted its
/// streams, got exactly the job `forward_segment_job` builds, and its answer
/// took the streams to the next ones; the pass ends with the single output
/// stream, and the cache holds the states the steps kept, the output and the
/// batch size (the rows of the input). On failure the pass stopped at a
/// segment that refused its streams or whose answer did not fit, or it ended
/// with other than one stream. A graph without segments gives its input back.
pub fn run_forward<F: Fn(Job) -> JobResult>(
    dispatch: &F,
    param_store: &ParamStore,
    segments: &Vec<SegmentV2>,
    input: MatrixBufferHandle,
    sample_lens: Option<Vec<usize>>,
) -> (r: Result<(MatrixBufferHandle, ForwardCacheV2), String>)
    requires
        forall|j: Job| dispatch.requires((j,)),
        forall|k: int| 0 <= k < segments@.len() ==> params_in_store(#[trigger] segments@[k], param_store@),
    ensures
        r matches Ok((out, cache)) ==> {
            &&& cache.segment_states@.len() == segments@.len()
            &&& cache.output == out
            &&& cache.batch == input.rows
            &&& opt_dims_view(&cache.sample_lens) == opt_dims_view(&sample_lens)
            &&& exists|jobs: Seq<Job>, rs: Seq<JobResult>, streams: Seq<Seq<MatrixBufferHandle>>|
                #[trigger] forward_trace(
                    *dispatch,
                    param_store@,
                    opt_dims_view(&sample_lens),
                    segments@,
                    input,
                    jobs,
                    rs,
                    streams,
                    cache.segment_states@,
                    segments@.len(),
                ) && streams.last() == seq![out]
        },
        r is Err ==> (exists|
            jobs: Seq<Job>,
            rs: Seq<JobResult>,
            streams: Seq<Seq<MatrixBufferHandle>>,
            states: Seq<SegmentForwardStateV2>,
            k: nat,
            job: Job,
            result: JobResult,
        |
            #[trigger] forward_fails_at(
                *dispatch,
                param_store@,
                opt_dims_view(&sample_lens),
                segments@,
                input,
                jobs,
                rs,
                streams,
                states,
                k,
                job,
                result,
            )) || (exists|
            jobs: Seq<Job>,
            rs: Seq<JobResult>,
            streams: Seq<Seq<MatrixBufferHandle>>,
            states: Seq<SegmentForwardStateV2>,
        |
            #[trigger] forward_trace(
                *dispatch,
                param_store@,
                opt_dims_view(&sample_lens),
                segments@,
                input,
                jobs,
                rs,
                streams,
                states,
                segments@.len(),
            ) && streams.last().len() != 1),
        segments@.len() == 0 ==> (r matches Ok((out, _)) && out == input),
        segments@.len() > 0 && forward_refuses(segments@[0], 1) ==> r is Err,
{
    let ghost store = param_store@;
    let ghost sl = opt_dims_view(&sample_lens);
    let ghost segs = segments@;
    let batch = input.rows;
    let mut streams: Vec<MatrixBufferHandle> = Vec::new();
    streams.push(input);
    let mut states: Vec<SegmentForwardStateV2> = Vec::new();
    let ghost mut gjobs: Seq<Job> = Seq::empty();
    let ghost mut grs: Seq<JobResult> = Seq::empty();
    let ghost mut gstreams: Seq<Seq<MatrixBufferHandle>> = seq![streams@];
    proof {
        assert(streams@ =~= seq![input]);
    }
    let mut i: usize = 0;
    while i < segments.len()
        invariant
            i <= segments@.len(),
            segs == segments@,
            store == param_store@,
            sl == opt_dims_view(&sample_lens),
            states@.len() == i,
            i == 0 ==> streams@ == seq![input],
            i > 0 ==> !forward_refuses(segments@[0], 1),
            forward_trace(*dispatch, store, sl, segs, input, gjobs, grs, gstreams, states@, i as nat),
            gstreams.last() == streams@,
            forall|j: Job| dispatch.requires((j,)),
            forall|k: int| 0 <= k < segments@.len() ==> params_in_store(#[trigger] segments@[k], param_store@),
        decreases segments@.len() - i,
    {
        let seg = &segments[i];
        proof {
            assert(params_in_store(segments@[i as int], param_store@));
            assert(segs[i as int] == *seg);
            assert(gstreams[i as int] == streams@);
        }
        let job = match forward_segment_job(seg, &streams, param_store, &sample_lens) {
            Ok(j) => j,
            Err(e) => {
                proof {
                    let dj = Job::Migrate(MigrateJob { handle: input, target: input.location });
                    let dr = JobResult::Unit;
                    assert(forward_fails_at(*dispatch, store, sl, segs, input, gjobs, grs, gstreams, states@, i as nat, dj, dr));
                }
                return Err(e);
            },
        };
        let ghost gj = job;
        let result = dispatch(job);
        let ghost gr = result;
        let ghost before = streams@;
        match forward_segment_result(seg, streams, result) {
            Ok((next, state)) => {
                proof {
                    assert(forward_step_ok(*dispatch, store, sl, segs[i as int], gstreams[i as int], gj, gr, next@, state));
                    lemma_forward_trace_push(*dispatch, store, sl, segs, input, gjobs, grs, gstreams, states@, i as nat, gj, gr, next@, state);
                    gjobs = gjobs.push(gj);
                    grs = grs.push(gr);
                    gstreams = gstreams.push(next@);
                }
                streams = next;
                states.push(state);
            },
            Err(e) => {
                proof {
                    assert(forward_fails_at(*dispatch, store, sl, segs, input, gjobs, grs, gstreams, states@, i as nat, gj, gr));
                }
                return Err(e);
            },
        }
        i = i + 1;
    }
    proof {
        assert(forward_trace(*dispatch, store, sl, segs, input, gjobs, grs, gstreams, states@, segs.len()));
    }
    finish_forward(streams, states, batch, sample_lens)
}

} // verus!

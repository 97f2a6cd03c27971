use vstd::prelude::*;
use crate::buffer::MatrixBufferHandle;
use crate::layer::opt_dims_view;
use crate::mixed_model::MixedModel;
use crate::model::{Model, ModelSpec, model_slices, models_view};

verus! {

/// The streams a processor works on: the listed ones, or all of them.
pub open spec fn active_indices(indices: Option<Seq<usize>>, streams_len: nat) -> Seq<usize> {
    match indices {
        Some(s) => s,
        None => Seq::new(streams_len, |i: int| i as usize),
    }
}

/// Lists the streams a processor works on.
pub fn active_stream_indices(stream_indices: &Option<Vec<usize>>, streams_len: usize) -> (r: Vec<usize>)
    ensures
        r@ == active_indices(opt_dims_view(stream_indices), streams_len as nat),
{
    match stream_indices {
        Some(v) => crate::layer::copy_dims(v),
        None => {
            let mut r: Vec<usize> = Vec::new();
            let mut i: usize = 0;
            while i < streams_len
                invariant
                    i <= streams_len,
                    r@.len() == i,
                    forall|j: int| 0 <= j < i ==> r@[j] == j as usize,
                decreases streams_len - i,
            {
                r.push(i);
                i = i + 1;
            }
            assert(r@ =~= Seq::new(streams_len as nat, |j: int| j as usize));
            r
        },
    }
}

/// Every active stream of a processor exists.
pub open spec fn indices_in_range(m: ModelSpec, n: nat) -> bool {
    match m {
        ModelSpec::UniversalProcessor { stream_indices, .. } => forall|k: int|
            0 <= k < active_indices(stream_indices, n).len() ==> (#[trigger] active_indices(
                stream_indices,
                n,
            )[k] as nat) < n,
        _ => true,
    }
}

/// The stream counts a unit's forward pass accepts.
pub open spec fn forward_accepts(m: ModelSpec, n: nat) -> bool {
    match m {
        ModelSpec::UniversalProcessor { .. } => indices_in_range(m, n),
        ModelSpec::SplitterConnector { .. } => n == 2,
        ModelSpec::CombinerConnector { input_dims, .. } => n == input_dims.len(),
        ModelSpec::Splitter { .. } => n == 1,
        ModelSpec::Combiner { .. } => n == 2,
        _ => true,
    }
}

/// Number of buffers the kernels of a unit's forward pass produce.
pub open spec fn forward_outputs(m: ModelSpec, n: nat) -> nat {
    match m {
        ModelSpec::UniversalProcessor { stream_indices, .. } => active_indices(stream_indices, n).len(),
        ModelSpec::SplitterConnector { .. } => 2,
        ModelSpec::CombinerConnector { .. } => 0,
        ModelSpec::Splitter { .. } => 2,
        ModelSpec::Combiner { .. } => 1,
        _ => n,
    }
}

/// The streams after processing: the `k`-th output replaces the stream at
/// the `k`-th index, in order.
pub open spec fn apply_updates(streams: Seq<MatrixBufferHandle>, idxs: Seq<usize>, outs: Seq<MatrixBufferHandle>) -> Seq<MatrixBufferHandle>
    decreases idxs.len(),
{
    if idxs.len() == 0 || outs.len() == 0 {
        streams
    } else {
        apply_updates(streams, idxs.drop_last(), outs.drop_last()).update(idxs.last() as int, outs.last())
    }
}

/// A processor changes only the streams it works on: every other stream keeps
/// its buffer, and the number of streams stays the same.
pub proof fn law_updates_keep_inactive_streams(
    streams: Seq<MatrixBufferHandle>,
    idxs: Seq<usize>,
    outs: Seq<MatrixBufferHandle>,
    j: int,
)
    requires
        0 <= j < streams.len(),
        !idxs.contains(j as usize),
        forall|k: int| 0 <= k < idxs.len() ==> (#[trigger] idxs[k] as int) < streams.len(),
    ensures
        apply_updates(streams, idxs, outs).len() == streams.len(),
        apply_updates(streams, idxs, outs)[j] == streams[j],
    decreases idxs.len(),
{
    if idxs.len() > 0 && outs.len() > 0 {
        let rest = idxs.drop_last();
        assert forall|k: int| 0 <= k < rest.len() implies (#[trigger] rest[k] as int) < streams.len() by {
            assert(rest[k] == idxs[k]);
        }
        if rest.contains(j as usize) {
            let t = choose|t: int| 0 <= t < rest.len() && rest[t] == j as usize;
            assert(idxs[t] == j as usize);
            assert(idxs.contains(j as usize));
        }
        law_updates_keep_inactive_streams(streams, rest, outs.drop_last(), j);
        assert(idxs.last() == idxs[idxs.len() - 1]);
        assert(idxs.last() != j as usize);
    }
}

/// The streams after a unit's forward pass, given what its kernels produced.
pub open spec fn forward_next(m: ModelSpec, streams: Seq<MatrixBufferHandle>, outs: Seq<MatrixBufferHandle>) -> Seq<MatrixBufferHandle> {
    match m {
        ModelSpec::UniversalProcessor { stream_indices, .. } => apply_updates(
            streams,
            active_indices(stream_indices, streams.len()),
            outs,
        ),
        ModelSpec::CombinerConnector { .. } => streams,
        _ => outs,
    }
}

/// The gradient counts a unit's backward pass accepts.
pub open spec fn backward_accepts(m: ModelSpec, n: nat) -> bool {
    match m {
        ModelSpec::UniversalProcessor { .. } => indices_in_range(m, n),
        ModelSpec::SplitterConnector { .. } => n == 2,
        ModelSpec::Splitter { .. } => n >= 2,
        ModelSpec::Combiner { .. } => n >= 1,
        _ => true,
    }
}

/// Number of buffers the kernels of a unit's backward pass produce.
pub open spec fn backward_outputs(m: ModelSpec, n: nat) -> nat {
    match m {
        ModelSpec::UniversalProcessor { stream_indices, .. } => active_indices(stream_indices, n).len(),
        ModelSpec::SplitterConnector { .. } => 2,
        ModelSpec::CombinerConnector { .. } => 0,
        ModelSpec::Splitter { .. } => 1,
        ModelSpec::Combiner { .. } => 2,
        _ => n,
    }
}

/// The gradients after a unit's backward pass, given what its kernels produced.
pub open spec fn backward_next(m: ModelSpec, grads: Seq<MatrixBufferHandle>, outs: Seq<MatrixBufferHandle>) -> Seq<MatrixBufferHandle> {
    match m {
        ModelSpec::UniversalProcessor { stream_indices, .. } => apply_updates(
            grads,
            active_indices(stream_indices, grads.len()),
            outs,
        ),
        ModelSpec::CombinerConnector { .. } => grads,
        _ => outs,
    }
}

/// The backward pass of a processor hands the gradients of the streams it
/// does not work on to the unit before it untouched, and that of a stream
/// marker hands all of them on; neither changes the number of gradients.
pub proof fn law_backward_keeps_inactive_gradients(
    m: ModelSpec,
    grads: Seq<MatrixBufferHandle>,
    outs: Seq<MatrixBufferHandle>,
    j: int,
)
    requires
        m is UniversalProcessor || m is CombinerConnector,
        backward_accepts(m, grads.len()),
        0 <= j < grads.len(),
        m matches ModelSpec::UniversalProcessor { stream_indices, .. } ==> !active_indices(
            stream_indices,
            grads.len(),
        ).contains(j as usize),
    ensures
        backward_next(m, grads, outs).len() == grads.len(),
        backward_next(m, grads, outs)[j] == grads[j],
{
    match m {
        ModelSpec::UniversalProcessor { stream_indices, .. } => {
            let idxs = active_indices(stream_indices, grads.len());
            assert forall|k: int| 0 <= k < idxs.len() implies (#[trigger] idxs[k] as int) < grads.len() by {
                assert(indices_in_range(m, grads.len()));
            }
            law_updates_keep_inactive_streams(grads, idxs, outs, j);
        },
        _ => {},
    }
}

proof fn lemma_apply_updates_len(streams: Seq<MatrixBufferHandle>, idxs: Seq<usize>, outs: Seq<MatrixBufferHandle>)
    requires
        forall|k: int| 0 <= k < idxs.len() ==> (#[trigger] idxs[k] as nat) < streams.len(),
    ensures
        apply_updates(streams, idxs, outs).len() == streams.len(),
    decreases idxs.len(),
{
    if idxs.len() > 0 && outs.len() > 0 {
        assert forall|k: int| 0 <= k < idxs.drop_last().len() implies (#[trigger] idxs.drop_last()[k] as nat) < streams.len() by {
            assert(idxs.drop_last()[k] == idxs[k]);
        }
        lemma_apply_updates_len(streams, idxs.drop_last(), outs.drop_last());
        assert(idxs[idxs.len() - 1] == idxs.last());
    }
}

/// Replaces the listed streams by the outputs, in order.
fn replace_streams(streams: Vec<MatrixBufferHandle>, idxs: &Vec<usize>, outs: Vec<MatrixBufferHandle>) -> (r: Vec<MatrixBufferHandle>)
    requires
        idxs@.len() == outs@.len(),
        forall|k: int| 0 <= k < idxs@.len() ==> (#[trigger] idxs@[k] as nat) < streams@.len(),
    ensures
        r@ == apply_updates(streams@, idxs@, outs@),
{
    let mut s = streams;
    let mut k: usize = 0;
    while k < idxs.len()
        invariant
            k <= idxs@.len(),
            idxs@.len() == outs@.len(),
            forall|j: int| 0 <= j < idxs@.len() ==> (#[trigger] idxs@[j] as nat) < streams@.len(),
            s@ == apply_updates(streams@, idxs@.take(k as int), outs@.take(k as int)),
        decreases idxs@.len() - k,
    {
        proof {
            assert forall|j: int| 0 <= j < idxs@.take(k as int).len() implies (#[trigger] idxs@.take(k as int)[j] as nat) < streams@.len() by {
                assert(idxs@.take(k as int)[j] == idxs@[j]);
            }
            lemma_apply_updates_len(streams@, idxs@.take(k as int), outs@.take(k as int));
            assert(idxs@.take(k + 1).drop_last() =~= idxs@.take(k as int));
            assert(outs@.take(k + 1).drop_last() =~= outs@.take(k as int));
        }
        s.set(idxs[k], outs[k]);
        k = k + 1;
    }
    proof {
        assert(idxs@.take(k as int) =~= idxs@);
        assert(outs@.take(k as int) =~= outs@);
    }
    s
}

impl MixedModel {
    /// The batch size of a forward pass: the rows of the first input, or
    /// `None` when there is no input.
    pub fn forward_batch(&self, inputs: &Vec<MatrixBufferHandle>) -> (r: Option<usize>)
        requires
            inputs@.len() == self.input_stream_count_spec(),
            forall|i: int| 0 <= i < inputs@.len() ==> (#[trigger] inputs@[i]).rows == inputs@[0].rows,
        ensures
            inputs@.len() == 0 ==> r is None,
            inputs@.len() > 0 ==> r == Some(inputs@[0].rows),
    {
        if inputs.len() == 0 {
            None
        } else {
            Some(inputs[0].rows)
        }
    }

    /// The streams after the forward pass of unit `model_index`, given the
    /// buffers its kernels produced in order.
    pub fn forward_step(&self, model_index: usize, streams: Vec<MatrixBufferHandle>, outputs: Vec<MatrixBufferHandle>) -> (r: Vec<MatrixBufferHandle>)
        requires
            model_index < self.models_spec().len(),
            forward_accepts(self.models_spec()[model_index as int], streams@.len()),
            outputs@.len() == forward_outputs(self.models_spec()[model_index as int], streams@.len()),
        ensures
            r@ == forward_next(self.models_spec()[model_index as int], streams@, outputs@),
    {
        let models = self.models();
        proof {
            assert(models_view(models@)[model_index as int] == models@[model_index as int]@);
        }
        match &models[model_index] {
            Model::UniversalProcessor(_, _, stream_indices) => {
                let idxs = active_stream_indices(stream_indices, streams.len());
                replace_streams(streams, &idxs, outputs)
            },
            Model::CombinerConnector { .. } => streams,
            _ => outputs,
        }
    }

    /// The gradients after the backward pass of unit `model_index`, given
    /// the buffers its kernels produced in order.
    pub fn backward_step(&self, model_index: usize, grads: Vec<MatrixBufferHandle>, outputs: Vec<MatrixBufferHandle>) -> (r: Vec<MatrixBufferHandle>)
        requires
            model_index < self.models_spec().len(),
            backward_accepts(self.models_spec()[model_index as int], grads@.len()),
            outputs@.len() == backward_outputs(self.models_spec()[model_index as int], grads@.len()),
        ensures
            r@ == backward_next(self.models_spec()[model_index as int], grads@, outputs@),
    {
        let models = self.models();
        proof {
            assert(models_view(models@)[model_index as int] == models@[model_index as int]@);
        }
        match &models[model_index] {
            Model::UniversalProcessor(_, _, stream_indices) => {
                let idxs = active_stream_indices(stream_indices, grads.len());
                replace_streams(grads, &idxs, outputs)
            },
            Model::CombinerConnector { .. } => grads,
            _ => outputs,
        }
    }
}

/// Whether every listed stream index is below `n`.
fn indices_below(indices: &Vec<usize>, n: usize) -> (r: bool)
    ensures
        r == forall|k: int| 0 <= k < indices@.len() ==> (#[trigger] indices@[k] as nat) < n,
{
    let mut i: usize = 0;
    while i < indices.len()
        invariant
            i <= indices@.len(),
            forall|k: int| 0 <= k < i ==> (#[trigger] indices@[k] as nat) < n,
        decreases indices@.len() - i,
    {
        if indices[i] >= n {
            return false;
        }
        i = i + 1;
    }
    true
}

impl MixedModel {
    /// How many buffers the kernels of unit `model_index` produce in a forward
    /// pass over `streams_len` streams; `None` when the unit does not accept
    /// that many streams.
    pub fn forward_output_count(&self, model_index: usize, streams_len: usize) -> (r: Option<usize>)
        requires
            model_index < self.models_spec().len(),
        ensures
            r == if forward_accepts(self.models_spec()[model_index as int], streams_len as nat) {
                Some(forward_outputs(self.models_spec()[model_index as int], streams_len as nat) as usize)
            } else {
                None::<usize>
            },
    {
        let models = self.models();
        proof {
            assert(models_view(models@)[model_index as int] == models@[model_index as int]@);
        }
        match &models[model_index] {
            Model::UniversalProcessor(_, _, stream_indices) => match stream_indices {
                Some(v) => if indices_below(v, streams_len) {
                    Some(v.len())
                } else {
                    None
                },
                None => {
                    proof {
                        assert forall|k: int| 0 <= k < active_indices(None, streams_len as nat).len()
                            implies (#[trigger] active_indices(None, streams_len as nat)[k] as nat) < streams_len by {}
                    }
                    Some(streams_len)
                },
            },
            Model::SplitterConnector { .. } => if streams_len == 2 { Some(2) } else { None },
            Model::CombinerConnector { input_dims, .. } => if streams_len == input_dims.len() {
                Some(0)
            } else {
                None
            },
            Model::Splitter { .. } => if streams_len == 1 { Some(2) } else { None },
            Model::Combiner { .. } => if streams_len == 2 { Some(1) } else { None },
            _ => Some(streams_len),
        }
    }

    /// How many buffers the kernels of unit `model_index` produce in a
    /// backward pass over `grads_len` gradients; `None` when the unit does not
    /// accept that many gradients.
    pub fn backward_output_count(&self, model_index: usize, grads_len: usize) -> (r: Option<usize>)
        requires
            model_index < self.models_spec().len(),
        ensures
            r == if backward_accepts(self.models_spec()[model_index as int], grads_len as nat) {
                Some(backward_outputs(self.models_spec()[model_index as int], grads_len as nat) as usize)
            } else {
                None::<usize>
            },
    {
        let models = self.models();
        proof {
            assert(models_view(models@)[model_index as int] == models@[model_index as int]@);
        }
        match &models[model_index] {
            Model::UniversalProcessor(_, _, stream_indices) => match stream_indices {
                Some(v) => if indices_below(v, grads_len) {
                    Some(v.len())
                } else {
                    None
                },
                None => {
                    proof {
                        assert forall|k: int| 0 <= k < active_indices(None, grads_len as nat).len()
                            implies (#[trigger] active_indices(None, grads_len as nat)[k] as nat) < grads_len by {}
                    }
                    Some(grads_len)
                },
            },
            Model::SplitterConnector { .. } => if grads_len == 2 { Some(2) } else { None },
            Model::CombinerConnector { .. } => Some(0),
            Model::Splitter { .. } => if grads_len >= 2 { Some(1) } else { None },
            Model::Combiner { .. } => if grads_len >= 1 { Some(2) } else { None },
            _ => Some(grads_len),
        }
    }
}

impl MixedModel {
    /// The handle of the parameter buffer of unit `model_idx`: the buffer of
    /// its first slice, or none for a unit without parameters.
    pub fn get_params_handle_for_model(&self, model_idx: usize) -> (r: Option<MatrixBufferHandle>)
        requires
            self.wf(),
            model_idx < self.models_spec().len(),
        ensures
            r == (if model_slices(self.models_spec()[model_idx as int]).len() > 0 {
                Some(
                    self.store_spec().buffers[model_slices(
                        self.models_spec()[model_idx as int],
                    )[0].buffer_idx as int].params,
                )
            } else {
                None::<MatrixBufferHandle>
            }),
    {
        let models = self.models();
        let ps = self.param_store();
        proof {
            assert(models_view(models@)[model_idx as int] == models@[model_idx as int]@);
            self.lemma_wf_slices(model_idx as int);
        }
        match &models[model_idx] {
            Model::UniversalProcessor(_, slices, _) => if slices.len() > 0 {
                Some(ps.params_handle(&slices[0]))
            } else {
                None
            },
            Model::Splitter { slice, .. } => Some(ps.params_handle(slice)),
            Model::Combiner { slice, .. } => Some(ps.params_handle(slice)),
            _ => None,
        }
    }

    /// The handle of the gradient buffer of unit `model_idx`: the buffer of
    /// its first slice, or none for a unit without parameters.
    pub fn get_grads_handle_for_model(&self, model_idx: usize) -> (r: Option<MatrixBufferHandle>)
        requires
            self.wf(),
            model_idx < self.models_spec().len(),
        ensures
            r == (if model_slices(self.models_spec()[model_idx as int]).len() > 0 {
                Some(
                    self.store_spec().buffers[model_slices(
                        self.models_spec()[model_idx as int],
                    )[0].buffer_idx as int].grads,
                )
            } else {
                None::<MatrixBufferHandle>
            }),
    {
        let models = self.models();
        let ps = self.param_store();
        proof {
            assert(models_view(models@)[model_idx as int] == models@[model_idx as int]@);
            self.lemma_wf_slices(model_idx as int);
        }
        match &models[model_idx] {
            Model::UniversalProcessor(_, slices, _) => if slices.len() > 0 {
                Some(ps.grads_handle(&slices[0]))
            } else {
                None
            },
            Model::Splitter { slice, .. } => Some(ps.grads_handle(slice)),
            Model::Combiner { slice, .. } => Some(ps.grads_handle(slice)),
            _ => None,
        }
    }
}

/// The backward pass of a unit accepts the gradients of its forward
/// outputs and gives back one gradient per forward input.
pub proof fn law_backward_restores_stream_count(m: ModelSpec, streams: Seq<MatrixBufferHandle>, outs: Seq<MatrixBufferHandle>, grad_outs: Seq<MatrixBufferHandle>)
    requires
        forward_accepts(m, streams.len()),
        outs.len() == forward_outputs(m, streams.len()),
        grad_outs.len() == backward_outputs(m, forward_next(m, streams, outs).len()),
    ensures
        backward_accepts(m, forward_next(m, streams, outs).len()),
        backward_next(m, forward_next(m, streams, outs), grad_outs).len() == streams.len(),
{
    match m {
        ModelSpec::UniversalProcessor { stream_indices, .. } => {
            let a = active_indices(stream_indices, streams.len());
            lemma_apply_updates_len(streams, a, outs);
            let f = forward_next(m, streams, outs);
            lemma_apply_updates_len(f, active_indices(stream_indices, f.len()), grad_outs);
        },
        _ => {},
    }
}

} // verus!

verus! {

/// Output features of a run of layers on inputs of `cols` features: the
/// output size of the last linear layer, or `cols` when there is none
/// (the other layers keep the feature count).
pub open spec fn proc_output_features(layers: Seq<crate::layer::LayerSpec>, cols: usize) -> usize
    decreases layers.len(),
{
    if layers.len() == 0 {
        cols
    } else {
        match layers.last().kind {
            crate::layer::LayerKind::Linear { out_features, .. } => out_features,
            _ => proc_output_features(layers.drop_last(), cols),
        }
    }
}

/// Output features of a run of layers applied to the given input buffer.
pub fn get_proc_output_features(layers: &[crate::layer::LayerDesc], input: &MatrixBufferHandle) -> (r: usize)
    ensures
        r == proc_output_features(crate::jobs::layers_view(layers@), input.cols),
{
    let mut current_cols = input.cols();
    let mut i: usize = 0;
    let ghost lv = crate::jobs::layers_view(layers@);
    while i < layers.len()
        invariant
            i <= layers@.len(),
            lv == crate::jobs::layers_view(layers@),
            current_cols == proc_output_features(lv.take(i as int), input.cols),
        decreases layers@.len() - i,
    {
        proof {
            assert(lv.take(i + 1).drop_last() =~= lv.take(i as int));
            assert(lv.take(i + 1).last() == layers@[i as int]@);
        }
        match layers[i].kind {
            crate::layer::LayerKind::Linear { out_features, .. } => {
                current_cols = out_features;
            },
            _ => {},
        }
        i = i + 1;
    }
    proof {
        assert(lv.take(i as int) =~= lv);
    }
    current_cols
}

} // verus!

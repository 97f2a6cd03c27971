use vstd::prelude::*;
use crate::buffer::MatrixBufferHandle;

verus! {

/// What a layer keeps from its forward pass for the backward pass: the
/// buffers (inputs, outputs or pre-activations) it will read again.
pub enum BufferedContext {
    Linear { input: MatrixBufferHandle },
    ReLU { input: MatrixBufferHandle },
    Sigmoid { output: MatrixBufferHandle },
    Tanh { output: MatrixBufferHandle },
    LeakyReLU { input: MatrixBufferHandle },
    Softmax { output: MatrixBufferHandle },
    Identity { input: MatrixBufferHandle },
    Memory { input: MatrixBufferHandle },
    SoftSparseGate { input: MatrixBufferHandle },
    SoftKeepGate { input: MatrixBufferHandle },
    DualAnchor1D { input: MatrixBufferHandle },
    DualSlopeReLU { input: MatrixBufferHandle },
    LearnableMish { input: MatrixBufferHandle },
    LearnableSoftplus { input: MatrixBufferHandle },
    AdaptiveActivation { input: MatrixBufferHandle },
    RMSNormWithLearnableEpsilon { input: MatrixBufferHandle },
    AdaptiveDropout { input: MatrixBufferHandle, mask: MatrixBufferHandle, arg: MatrixBufferHandle },
    FeatureFusion { input: MatrixBufferHandle },
    SparseFeatureSelectionGate { input: MatrixBufferHandle },
    MultiResolutionKANLinear { input: MatrixBufferHandle },
    AdaptiveNormalization { input: MatrixBufferHandle },
    BatchRenorm { input: MatrixBufferHandle, use_batch_stats: bool },
    ConcreteDropout { input: MatrixBufferHandle, arg: MatrixBufferHandle },
    IndRNN { input: MatrixBufferHandle, h_all: MatrixBufferHandle },
    Mamba { input: MatrixBufferHandle, h_all: MatrixBufferHandle },
    SpectralNormLinear { input: MatrixBufferHandle },
    LinearAttention {
        input: MatrixBufferHandle,
        q_raw: MatrixBufferHandle,
        k_raw: MatrixBufferHandle,
        v_raw: MatrixBufferHandle,
        q_phi: MatrixBufferHandle,
        k_phi: MatrixBufferHandle,
        kv: MatrixBufferHandle,
        z: MatrixBufferHandle,
    },
    RelativePositionAttention {
        input: MatrixBufferHandle,
        q: MatrixBufferHandle,
        k: MatrixBufferHandle,
        v: MatrixBufferHandle,
        scores: MatrixBufferHandle,
        weights: MatrixBufferHandle,
    },
    SplitterConnector { input: MatrixBufferHandle },
    CombinerConnector { inputs: Vec<MatrixBufferHandle> },
    Splitter { input: MatrixBufferHandle, pre_a: MatrixBufferHandle, pre_b: MatrixBufferHandle },
    Combiner {
        input_a: MatrixBufferHandle,
        input_b: MatrixBufferHandle,
        pre_act: MatrixBufferHandle,
    },
}

/// Context saved by a layer for the backward pass.
pub enum DynamicContext {
    Buffered(BufferedContext),
}

/// The mathematical model of a saved context.
pub enum ContextSpec {
    Single { variant: nat, buffers: Seq<MatrixBufferHandle> },
}

pub open spec fn buffered_view(c: BufferedContext) -> (nat, Seq<MatrixBufferHandle>) {
    match c {
        BufferedContext::Linear { input } => (0, seq![input]),
        BufferedContext::ReLU { input } => (1, seq![input]),
        BufferedContext::Sigmoid { output } => (2, seq![output]),
        BufferedContext::Tanh { output } => (3, seq![output]),
        BufferedContext::LeakyReLU { input } => (4, seq![input]),
        BufferedContext::Softmax { output } => (5, seq![output]),
        BufferedContext::Identity { input } => (6, seq![input]),
        BufferedContext::Memory { input } => (7, seq![input]),
        BufferedContext::SoftSparseGate { input } => (8, seq![input]),
        BufferedContext::SoftKeepGate { input } => (9, seq![input]),
        BufferedContext::DualAnchor1D { input } => (10, seq![input]),
        BufferedContext::DualSlopeReLU { input } => (15, seq![input]),
        BufferedContext::LearnableMish { input } => (16, seq![input]),
        BufferedContext::LearnableSoftplus { input } => (17, seq![input]),
        BufferedContext::AdaptiveActivation { input } => (18, seq![input]),
        BufferedContext::RMSNormWithLearnableEpsilon { input } => (19, seq![input]),
        BufferedContext::AdaptiveDropout { input, mask, arg } => (20, seq![input, mask, arg]),
        BufferedContext::FeatureFusion { input } => (21, seq![input]),
        BufferedContext::SparseFeatureSelectionGate { input } => (22, seq![input]),
        BufferedContext::MultiResolutionKANLinear { input } => (23, seq![input]),
        BufferedContext::AdaptiveNormalization { input } => (24, seq![input]),
        BufferedContext::BatchRenorm { input, use_batch_stats } => (
            if use_batch_stats {
                25
            } else {
                32
            },
            seq![input],
        ),
        BufferedContext::ConcreteDropout { input, arg } => (26, seq![input, arg]),
        BufferedContext::IndRNN { input, h_all } => (27, seq![input, h_all]),
        BufferedContext::Mamba { input, h_all } => (28, seq![input, h_all]),
        BufferedContext::SpectralNormLinear { input } => (29, seq![input]),
        BufferedContext::LinearAttention { input, q_raw, k_raw, v_raw, q_phi, k_phi, kv, z } => (
            30,
            seq![input, q_raw, k_raw, v_raw, q_phi, k_phi, kv, z],
        ),
        BufferedContext::RelativePositionAttention { input, q, k, v, scores, weights } => (
            31,
            seq![input, q, k, v, scores, weights],
        ),
        BufferedContext::SplitterConnector { input } => (11, seq![input]),
        BufferedContext::CombinerConnector { inputs } => (12, inputs@),
        BufferedContext::Splitter { input, pre_a, pre_b } => (13, seq![input, pre_a, pre_b]),
        BufferedContext::Combiner { input_a, input_b, pre_act } => (
            14,
            seq![input_a, input_b, pre_act],
        ),
    }
}

impl View for DynamicContext {
    type V = ContextSpec;

    open spec fn view(&self) -> ContextSpec {
        match self {
            DynamicContext::Buffered(c) => {
                let (v, b) = buffered_view(*c);
                ContextSpec::Single { variant: v, buffers: b }
            },
        }
    }
}

/// Element-wise copy of a list of buffer handles.
pub fn copy_handles(v: &Vec<MatrixBufferHandle>) -> (r: Vec<MatrixBufferHandle>)
    ensures
        r@ == v@,
{
    let mut r: Vec<MatrixBufferHandle> = Vec::new();
    let mut i: usize = 0;
    while i < v.len()
        invariant
            i <= v.len(),
            r@ == v@.subrange(0, i as int),
        decreases v.len() - i,
    {
        r.push(v[i]);
        i = i + 1;
    }
    assert(r@ =~= v@);
    r
}

impl DynamicContext {
    /// An independent copy of the context.
    pub fn copy(&self) -> (r: DynamicContext)
        ensures
            r@ == self@,
    {
        match self {
            DynamicContext::Buffered(c) => DynamicContext::Buffered(
                match c {
                    BufferedContext::Linear { input } => BufferedContext::Linear { input: *input },
                    BufferedContext::ReLU { input } => BufferedContext::ReLU { input: *input },
                    BufferedContext::Sigmoid { output } => BufferedContext::Sigmoid {
                        output: *output,
                    },
                    BufferedContext::Tanh { output } => BufferedContext::Tanh { output: *output },
                    BufferedContext::LeakyReLU { input } => BufferedContext::LeakyReLU {
                        input: *input,
                    },
                    BufferedContext::Softmax { output } => BufferedContext::Softmax {
                        output: *output,
                    },
                    BufferedContext::Identity { input } => BufferedContext::Identity {
                        input: *input,
                    },
                    BufferedContext::Memory { input } => BufferedContext::Memory { input: *input },
                    BufferedContext::SoftSparseGate { input } => BufferedContext::SoftSparseGate {
                        input: *input,
                    },
                    BufferedContext::SoftKeepGate { input } => BufferedContext::SoftKeepGate {
                        input: *input,
                    },
                    BufferedContext::DualAnchor1D { input } => BufferedContext::DualAnchor1D {
                        input: *input,
                    },
                    BufferedContext::DualSlopeReLU { input } => BufferedContext::DualSlopeReLU { input: *input },
                    BufferedContext::LearnableMish { input } => BufferedContext::LearnableMish { input: *input },
                    BufferedContext::LearnableSoftplus { input } => BufferedContext::LearnableSoftplus {
                        input: *input,
                    },
                    BufferedContext::AdaptiveActivation { input } => BufferedContext::AdaptiveActivation {
                        input: *input,
                    },
                    BufferedContext::RMSNormWithLearnableEpsilon { input } =>
                        BufferedContext::RMSNormWithLearnableEpsilon { input: *input },
                    BufferedContext::AdaptiveDropout { input, mask, arg } => BufferedContext::AdaptiveDropout {
                        input: *input,
                        mask: *mask,
                        arg: *arg,
                    },
                    BufferedContext::FeatureFusion { input } => BufferedContext::FeatureFusion { input: *input },
                    BufferedContext::SparseFeatureSelectionGate { input } =>
                        BufferedContext::SparseFeatureSelectionGate { input: *input },
                    BufferedContext::MultiResolutionKANLinear { input } =>
                        BufferedContext::MultiResolutionKANLinear { input: *input },
                    BufferedContext::AdaptiveNormalization { input } => BufferedContext::AdaptiveNormalization {
                        input: *input,
                    },
                    BufferedContext::BatchRenorm { input, use_batch_stats } => BufferedContext::BatchRenorm {
                        input: *input,
                        use_batch_stats: *use_batch_stats,
                    },
                    BufferedContext::ConcreteDropout { input, arg } => BufferedContext::ConcreteDropout {
                        input: *input,
                        arg: *arg,
                    },
                    BufferedContext::IndRNN { input, h_all } => BufferedContext::IndRNN {
                        input: *input,
                        h_all: *h_all,
                    },
                    BufferedContext::Mamba { input, h_all } => BufferedContext::Mamba { input: *input, h_all: *h_all },
                    BufferedContext::SpectralNormLinear { input } => BufferedContext::SpectralNormLinear {
                        input: *input,
                    },
                    BufferedContext::LinearAttention { input, q_raw, k_raw, v_raw, q_phi, k_phi, kv, z } =>
                        BufferedContext::LinearAttention {
                        input: *input,
                        q_raw: *q_raw,
                        k_raw: *k_raw,
                        v_raw: *v_raw,
                        q_phi: *q_phi,
                        k_phi: *k_phi,
                        kv: *kv,
                        z: *z,
                    },
                    BufferedContext::RelativePositionAttention { input, q, k, v, scores, weights } =>
                        BufferedContext::RelativePositionAttention {
                        input: *input,
                        q: *q,
                        k: *k,
                        v: *v,
                        scores: *scores,
                        weights: *weights,
                    },
                    BufferedContext::SplitterConnector { input } =>
                        BufferedContext::SplitterConnector { input: *input },
                    BufferedContext::CombinerConnector { inputs } =>
                        BufferedContext::CombinerConnector { inputs: copy_handles(inputs) },
                    BufferedContext::Splitter { input, pre_a, pre_b } => BufferedContext::Splitter {
                        input: *input,
                        pre_a: *pre_a,
                        pre_b: *pre_b,
                    },
                    BufferedContext::Combiner { input_a, input_b, pre_act } =>
                        BufferedContext::Combiner {
                        input_a: *input_a,
                        input_b: *input_b,
                        pre_act: *pre_act,
                    },
                },
            ),
        }
    }
}

/// The buffers a context holds, in the order its model lists them.
pub open spec fn context_buffers(c: DynamicContext) -> Seq<MatrixBufferHandle> {
    match c {
        DynamicContext::Buffered(b) => buffered_view(b).1,
    }
}

/// The model of a list of contexts.
pub open spec fn contexts_view(v: Seq<DynamicContext>) -> Seq<ContextSpec> {
    v.map_values(|c: DynamicContext| c@)
}

/// Element-wise copy of a list of contexts.
pub fn copy_contexts(v: &Vec<DynamicContext>) -> (r: Vec<DynamicContext>)
    ensures
        contexts_view(r@) == contexts_view(v@),
{
    let mut r: Vec<DynamicContext> = Vec::new();
    let mut i: usize = 0;
    while i < v.len()
        invariant
            i <= v.len(),
            r.len() == i,
            forall|j: int| 0 <= j < i ==> (#[trigger] r@[j])@ == v@[j]@,
        decreases v.len() - i,
    {
        r.push(v[i].copy());
        i = i + 1;
    }
    assert(contexts_view(r@) =~= contexts_view(v@));
    r
}

} // verus!

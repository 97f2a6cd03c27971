use vstd::prelude::*;

verus! {

/// The kind of a layer in a model plan.
///
/// The first six kinds drive the graph topology (stream markers, learnable
/// connectors and dimension changes); the remaining kinds are ordinary
/// processing layers that are grouped into universal segments.
#[derive(Clone, Copy, PartialEq, Eq, Structural, Debug)]
pub enum LayerKind {
    SplitterConnector,
    CombinerConnector,
    Splitter,
    Combiner,
    Unsqueeze,
    ReduceMean,
    Linear { in_features: usize, out_features: usize },
    ReLU,
    Sigmoid,
    Tanh,
    LeakyReLU,
    Identity,
    Softmax,
    Memory,
    SoftSparseGate,
    SoftKeepGate,
    DualAnchor,
    DualSlopeReLU { features: usize },
    LearnableMish { features: usize },
    LearnableSoftplus { features: usize },
    AdaptiveActivation { in_features: usize, num_activations: usize },
    RmsNorm { features: usize },
    AdaptiveDropout { features: usize },
    FeatureFusion { in_features: usize, out_features: usize },
    SparseFeatureSelectionGate { features: usize },
    MultiResolutionKAN { in_features: usize, out_features: usize },
    AdaptiveNormalization { features: usize },
    BatchRenorm { features: usize },
    ConcreteDropout,
    IndRNN { seq_len: usize, input_dim: usize },
    Mamba { seq_len: usize, input_dim: usize, state_dim: usize },
    SpectralNormLinear { in_features: usize, out_features: usize },
    LinearAttention { seq_len: usize, d_model: usize, in_features: usize, out_features: usize, param_len: usize },
    RelativePositionAttention {
        seq_len: usize,
        d_model: usize,
        in_features: usize,
        out_features: usize,
        param_len: usize,
    },
}

/// True for the kinds that are grouped into universal segments.
pub open spec fn is_processing_kind(k: LayerKind) -> bool {
    !(k is SplitterConnector || k is CombinerConnector || k is Splitter || k is Combiner
        || k is Unsqueeze || k is ReduceMean)
}

/// The per-stream feature sizes of a layer's input or output.
pub struct StreamShape {
    pub streams: Vec<usize>,
}

/// Description of one layer of a model plan.
pub struct LayerDesc {
    pub kind: LayerKind,
    pub input_shape: StreamShape,
    pub output_shape: StreamShape,
    pub param_count: usize,
}

/// The mathematical model of a layer description.
pub struct LayerSpec {
    pub kind: LayerKind,
    pub input: Seq<usize>,
    pub output: Seq<usize>,
    pub param_len: usize,
}

impl View for LayerDesc {
    type V = LayerSpec;

    open spec fn view(&self) -> LayerSpec {
        LayerSpec {
            kind: self.kind,
            input: self.input_shape.streams@,
            output: self.output_shape.streams@,
            param_len: self.param_count,
        }
    }
}

/// Element-wise copy of a list of sizes.
pub fn copy_dims(v: &Vec<usize>) -> (r: Vec<usize>)
    ensures
        r@ == v@,
{
    let mut r: Vec<usize> = Vec::new();
    let mut i: usize = 0;
    while i < v.len()
        invariant
            i <= v.len(),
            r@ == v@.subrange(0, i as int),
        decreases v.len() - i,
    {
        r.push(v[i]);
        i = i + 1;
    }
    assert(r@ =~= v@);
    r
}

/// Copy of an optional list of sizes.
pub fn copy_opt_dims(v: &Option<Vec<usize>>) -> (r: Option<Vec<usize>>)
    ensures
        opt_dims_view(&r) == opt_dims_view(v),
{
    match v {
        Some(d) => Some(copy_dims(d)),
        None => None,
    }
}

/// The model of an optional list of sizes.
pub open spec fn opt_dims_view(v: &Option<Vec<usize>>) -> Option<Seq<usize>> {
    match v {
        Some(d) => Some(d@),
        None => None,
    }
}

impl StreamShape {
    pub fn new(streams: Vec<usize>) -> (r: Self)
        ensures
            r.streams@ == streams@,
    {
        StreamShape { streams }
    }
}

impl LayerDesc {
    pub fn new(kind: LayerKind, input: Vec<usize>, output: Vec<usize>, param_count: usize) -> (r:
        Self)
        ensures
            r@ == (LayerSpec { kind, input: input@, output: output@, param_len: param_count }),
    {
        LayerDesc {
            kind,
            input_shape: StreamShape { streams: input },
            output_shape: StreamShape { streams: output },
            param_count,
        }
    }

    /// Number of learnable parameters of the layer.
    pub fn param_len(&self) -> (r: usize)
        ensures
            r == self@.param_len,
    {
        self.param_count
    }

    /// An independent copy of the description.
    pub fn copy(&self) -> (r: LayerDesc)
        ensures
            r@ == self@,
    {
        LayerDesc {
            kind: self.kind,
            input_shape: StreamShape { streams: copy_dims(&self.input_shape.streams) },
            output_shape: StreamShape { streams: copy_dims(&self.output_shape.streams) },
            param_count: self.param_count,
        }
    }
}

} // verus!

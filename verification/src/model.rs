use vstd::prelude::*;
use crate::buffer::{MatrixBufferHandle, MemoryDeviceKind};
use crate::jobs::layers_view;
use crate::layer::{LayerDesc, LayerSpec, opt_dims_view};
use crate::param_store::{ParamSlice, ParamStore};

verus! {

/// One computational unit of a mixed model.
pub enum Model {
    /// A run of ordinary layers with one parameter slice per layer and the
    /// streams it works on (`None`: every stream).
    UniversalProcessor(Vec<LayerDesc>, Vec<ParamSlice>, Option<Vec<usize>>),
    /// A learnable splitter of one stream into two.
    Splitter { input_dim: usize, output_dims: Vec<usize>, slice: ParamSlice },
    /// A learnable combiner of two streams into one.
    Combiner { input_dim: usize, output_dim: usize, slice: ParamSlice },
    /// Raises the dimensionality of every stream to the target dimensions.
    Unsqueeze(Vec<usize>),
    /// Lowers the dimensionality of every stream to the target dimensions.
    ReduceMean(Vec<usize>),
    /// Copies a pair of streams.
    SplitterConnector { dim_a: usize, dim_b: usize },
    /// Joins the given streams without computing.
    CombinerConnector { input_dims: Vec<usize>, output_dim: usize },
}

/// The model of a computational unit.
pub enum ModelSpec {
    UniversalProcessor { layers: Seq<LayerSpec>, slices: Seq<ParamSlice>, stream_indices: Option<Seq<usize>> },
    Splitter { input_dim: usize, output_dims: Seq<usize>, slice: ParamSlice },
    Combiner { input_dim: usize, output_dim: usize, slice: ParamSlice },
    Unsqueeze { dims: Seq<usize> },
    ReduceMean { dims: Seq<usize> },
    SplitterConnector { dim_a: usize, dim_b: usize },
    CombinerConnector { input_dims: Seq<usize>, output_dim: usize },
}

impl View for Model {
    type V = ModelSpec;

    open spec fn view(&self) -> ModelSpec {
        match self {
            Model::UniversalProcessor(l, s, i) => ModelSpec::UniversalProcessor {
                layers: layers_view(l@),
                slices: s@,
                stream_indices: opt_dims_view(i),
            },
            Model::Splitter { input_dim, output_dims, slice } => ModelSpec::Splitter {
                input_dim: *input_dim,
                output_dims: output_dims@,
                slice: *slice,
            },
            Model::Combiner { input_dim, output_dim, slice } => ModelSpec::Combiner {
                input_dim: *input_dim,
                output_dim: *output_dim,
                slice: *slice,
            },
            Model::Unsqueeze(d) => ModelSpec::Unsqueeze { dims: d@ },
            Model::ReduceMean(d) => ModelSpec::ReduceMean { dims: d@ },
            Model::SplitterConnector { dim_a, dim_b } => ModelSpec::SplitterConnector {
                dim_a: *dim_a,
                dim_b: *dim_b,
            },
            Model::CombinerConnector { input_dims, output_dim } => ModelSpec::CombinerConnector {
                input_dims: input_dims@,
                output_dim: *output_dim,
            },
        }
    }
}

/// The model of a list of computational units.
pub open spec fn models_view(v: Seq<Model>) -> Seq<ModelSpec> {
    v.map_values(|m: Model| m@)
}

/// The parameter slices a unit owns.
pub open spec fn model_slices(m: ModelSpec) -> Seq<ParamSlice> {
    match m {
        ModelSpec::UniversalProcessor { slices, .. } => slices,
        ModelSpec::Splitter { slice, .. } => seq![slice],
        ModelSpec::Combiner { slice, .. } => seq![slice],
        _ => Seq::empty(),
    }
}

} // verus!

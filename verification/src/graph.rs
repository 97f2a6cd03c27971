use vstd::prelude::*;
use crate::buffer::MatrixBufferHandle;
use crate::jobs::{
    ConnectorOpKind, ConnectorSpec, DimOpKind, ForwardContextsV2, connector_view, dim_op_view,
    layers_view,
};
use crate::layer::{LayerDesc, LayerSpec, opt_dims_view};
use crate::param_store::ParamSlice;

verus! {

/// What a segment of the graph does.
#[allow(inconsistent_fields)]
pub enum SegmentKindV2 {
    /// A run of ordinary layers processed together, with one parameter slice per layer.
    Universal { layers: Vec<LayerDesc>, slices: Vec<ParamSlice> },
    /// A change of the feature dimensions of one stream.
    DimOp { kind: DimOpKind },
    /// A learnable splitter or combiner of streams.
    Connector { kind: ConnectorOpKind },
}

/// One segment of the execution graph.
pub struct SegmentV2 {
    pub index: usize,
    pub kind: SegmentKindV2,
    pub input_shape: Vec<usize>,
    pub output_shape: Vec<usize>,
    pub stream_count: usize,
    pub stream_indices: Option<Vec<usize>>,
}

/// The model of a segment kind.
pub enum SegmentKindSpec {
    Universal { layers: Seq<LayerSpec>, slices: Seq<ParamSlice> },
    DimOp { unsqueeze: bool, dims: Seq<usize> },
    Connector { conn: ConnectorSpec },
}

/// The model of a segment.
pub struct SegmentSpec {
    pub index: usize,
    pub kind: SegmentKindSpec,
    pub input: Seq<usize>,
    pub output: Seq<usize>,
    pub stream_count: usize,
    pub stream_indices: Option<Seq<usize>>,
}

pub open spec fn segment_kind_view(k: &SegmentKindV2) -> SegmentKindSpec {
    match k {
        SegmentKindV2::Universal { layers, slices } => SegmentKindSpec::Universal {
            layers: layers_view(layers@),
            slices: slices@,
        },
        SegmentKindV2::DimOp { kind } => SegmentKindSpec::DimOp {
            unsqueeze: dim_op_view(kind).0,
            dims: dim_op_view(kind).1,
        },
        SegmentKindV2::Connector { kind } => SegmentKindSpec::Connector { conn: connector_view(kind) },
    }
}

impl View for SegmentV2 {
    type V = SegmentSpec;

    open spec fn view(&self) -> SegmentSpec {
        SegmentSpec {
            index: self.index,
            kind: segment_kind_view(&self.kind),
            input: self.input_shape@,
            output: self.output_shape@,
            stream_count: self.stream_count,
            stream_indices: opt_dims_view(&self.stream_indices),
        }
    }
}

/// The model of a list of segments.
pub open spec fn segments_view(v: Seq<SegmentV2>) -> Seq<SegmentSpec> {
    v.map_values(|s: SegmentV2| s@)
}

/// What the forward pass of a segment keeps for its backward pass.
pub enum SegmentForwardStateV2 {
    Stateless,
    Universal { contexts: ForwardContextsV2 },
    Connector { inputs: Vec<MatrixBufferHandle>, pre: Vec<MatrixBufferHandle> },
}

/// Cache of a forward pass: one state per segment, the output, the batch size
/// and, for a ragged input, the real length of every sample.
pub struct ForwardCacheV2 {
    pub segment_states: Vec<SegmentForwardStateV2>,
    pub output: MatrixBufferHandle,
    pub batch: usize,
    pub sample_lens: Option<Vec<usize>>,
}

impl ForwardCacheV2 {
    /// Number of segment states held by the cache.
    pub fn len(&self) -> (r: usize)
        ensures
            r == self.segment_states@.len(),
    {
        self.segment_states.len()
    }

    pub fn is_empty(&self) -> (r: bool)
        ensures
            r == (self.segment_states@.len() == 0),
    {
        self.segment_states.len() == 0
    }
}

} // verus!

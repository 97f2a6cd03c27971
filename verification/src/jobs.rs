use vstd::prelude::*;
use crate::buffer::{MatrixBufferHandle, MemoryDeviceKind};
use crate::context::{ContextSpec, DynamicContext, contexts_view, copy_contexts};
use crate::layer::{LayerDesc, LayerSpec};
use crate::param_store::ParamSlice;

verus! {

/// The kind of work a job asks for; used to route jobs to operators.
#[derive(Clone, Copy, PartialEq, Eq, Structural, Hash, Debug)]
pub enum JobKind {
    Migrate,
    ForwardSegment,
    BackwardSegment,
    Loss,
    OptimizerModifyGrads,
    OptimizerApplyUpdate,
    DimOp,
    ConnectorOp,
    ParamInit,
}

/// The operator that executes a job.
#[derive(Clone, Copy, PartialEq, Eq, Structural, Hash, Debug)]
pub enum OperatorKind {
    Memory,
    Cpu,
    Gpu,
}

/// Identification of a dispatched job.
#[derive(Clone, Copy, PartialEq, Eq, Structural, Hash, Debug)]
pub struct JobHandle {
    pub id: u64,
    pub kind: JobKind,
    pub operator: OperatorKind,
}

/// Forward contexts of a universal segment: either one list of per-layer
/// contexts, or one list per batch chunk together with the chunk layout.
pub enum ForwardContextsV2 {
    Sequential(Vec<DynamicContext>),
    Chunked { contexts: Vec<Vec<DynamicContext>>, layout: Vec<(usize, usize, usize)> },
}

/// The model of forward contexts: the per-chunk context lists.
pub open spec fn chunks_view(c: &ForwardContextsV2) -> Seq<Seq<ContextSpec>> {
    match c {
        ForwardContextsV2::Sequential(v) => seq![contexts_view(v@)],
        ForwardContextsV2::Chunked { contexts, .. } => contexts@.map_values(
            |ch: Vec<DynamicContext>| contexts_view(ch@),
        ),
    }
}

impl ForwardContextsV2 {
    /// Number of chunks: one for sequential contexts.
    pub fn num_chunks(&self) -> (r: usize)
        ensures
            r == chunks_view(self).len(),
    {
        match self {
            ForwardContextsV2::Sequential(_) => 1,
            ForwardContextsV2::Chunked { contexts, .. } => contexts.len(),
        }
    }

    /// The contexts of the first chunk, or none when there is no chunk.
    pub fn first_chunk(&self) -> (r: Vec<DynamicContext>)
        ensures
            contexts_view(r@) == (if chunks_view(self).len() > 0 {
                chunks_view(self)[0]
            } else {
                Seq::<ContextSpec>::empty()
            }),
    {
        match self {
            ForwardContextsV2::Sequential(v) => copy_contexts(v),
            ForwardContextsV2::Chunked { contexts, .. } => {
                if contexts.len() > 0 {
                    copy_contexts(&contexts[0])
                } else {
                    let r: Vec<DynamicContext> = Vec::new();
                    assert(contexts_view(r@) =~= Seq::<ContextSpec>::empty());
                    r
                }
            },
        }
    }
}

/// Forward pass of one universal segment.
pub struct ForwardSegmentJob {
    pub segment_index: usize,
    pub layers: Vec<LayerDesc>,
    pub slices: Vec<ParamSlice>,
    pub params: MatrixBufferHandle,
    pub input: MatrixBufferHandle,
    /// Real lengths of the samples of a ragged input (`None` for a dense input).
    pub sample_lens: Option<Vec<usize>>,
}

/// Backward pass of one universal segment.
pub struct BackwardSegmentJob {
    pub segment_index: usize,
    pub layers: Vec<LayerDesc>,
    pub slices: Vec<ParamSlice>,
    pub params: MatrixBufferHandle,
    pub grad_params: MatrixBufferHandle,
    pub grad_output: MatrixBufferHandle,
    pub contexts: ForwardContextsV2,
}

/// Move of a buffer to another memory.
pub struct MigrateJob {
    pub handle: MatrixBufferHandle,
    pub target: MemoryDeviceKind,
}

/// A change of the feature dimensions of a stream.
pub enum DimOpKind {
    Unsqueeze(Vec<usize>),
    ReduceMean(Vec<usize>),
}

/// The model of a dimension change: `true` for unsqueeze, and the target dimensions.
pub open spec fn dim_op_view(k: &DimOpKind) -> (bool, Seq<usize>) {
    match k {
        DimOpKind::Unsqueeze(d) => (true, d@),
        DimOpKind::ReduceMean(d) => (false, d@),
    }
}

pub struct DimOpJob {
    pub kind: DimOpKind,
    pub input: MatrixBufferHandle,
}

#[derive(Clone, Copy, PartialEq, Eq, Structural, Debug)]
pub enum ConnectorDirection {
    Forward,
    Backward,
}

/// A learnable connector: a splitter turns one stream into two, a combiner two into one.
pub enum ConnectorOpKind {
    Splitter { input_dim: usize, output_dims: Vec<usize>, slice: ParamSlice },
    Combiner { input_dim: usize, output_dim: usize, slice: ParamSlice },
}

/// The model of a connector.
pub enum ConnectorSpec {
    Splitter { input_dim: usize, output_dims: Seq<usize>, slice: ParamSlice },
    Combiner { input_dim: usize, output_dim: usize, slice: ParamSlice },
}

pub open spec fn connector_view(k: &ConnectorOpKind) -> ConnectorSpec {
    match k {
        ConnectorOpKind::Splitter { input_dim, output_dims, slice } => ConnectorSpec::Splitter {
            input_dim: *input_dim,
            output_dims: output_dims@,
            slice: *slice,
        },
        ConnectorOpKind::Combiner { input_dim, output_dim, slice } => ConnectorSpec::Combiner {
            input_dim: *input_dim,
            output_dim: *output_dim,
            slice: *slice,
        },
    }
}

pub struct ConnectorOpJob {
    pub direction: ConnectorDirection,
    pub kind: ConnectorOpKind,
    pub inputs: Vec<MatrixBufferHandle>,
    pub params: Option<MatrixBufferHandle>,
    pub grad_params: Option<MatrixBufferHandle>,
    pub saved: Vec<MatrixBufferHandle>,
}

/// A unit of work handed to the distributor.
pub enum Job {
    Migrate(MigrateJob),
    ForwardSegment(ForwardSegmentJob),
    BackwardSegment(BackwardSegmentJob),
    DimOp(DimOpJob),
    ConnectorOp(ConnectorOpJob),
}

impl Job {
    /// The routing kind of a job.
    pub fn kind(&self) -> (r: JobKind)
        ensures
            r == match self {
                Job::Migrate(_) => JobKind::Migrate,
                Job::ForwardSegment(_) => JobKind::ForwardSegment,
                Job::BackwardSegment(_) => JobKind::BackwardSegment,
                Job::DimOp(_) => JobKind::DimOp,
                Job::ConnectorOp(_) => JobKind::ConnectorOp,
            },
    {
        match self {
            Job::Migrate(_) => JobKind::Migrate,
            Job::ForwardSegment(_) => JobKind::ForwardSegment,
            Job::BackwardSegment(_) => JobKind::BackwardSegment,
            Job::DimOp(_) => JobKind::DimOp,
            Job::ConnectorOp(_) => JobKind::ConnectorOp,
        }
    }
}

/// What the distributor answers to a job.
pub enum JobResult {
    Unit,
    Forward { output: MatrixBufferHandle, contexts: ForwardContextsV2 },
    Backward { grad_input: MatrixBufferHandle },
    /// The loss value is carried as the bit pattern of an IEEE-754 single.
    Loss { value_bits: u32, grad_pred: MatrixBufferHandle },
    Buffer(MatrixBufferHandle),
    Buffers(Vec<MatrixBufferHandle>),
    Failed(String),
}

impl JobResult {
    pub fn is_failed(&self) -> (r: bool)
        ensures
            r == (self is Failed),
    {
        match self {
            JobResult::Failed(_) => true,
            _ => false,
        }
    }

    /// The failure message, if the job failed.
    pub fn into_failed_message(self) -> (r: Option<String>)
        ensures
            r is Some <==> self is Failed,
            self is Failed ==> r->0@ == self->Failed_0@,
    {
        match self {
            JobResult::Failed(msg) => Some(msg),
            _ => None,
        }
    }
}

/// The model of a list of layer descriptions.
pub open spec fn layers_view(v: Seq<LayerDesc>) -> Seq<LayerSpec> {
    v.map_values(|l: LayerDesc| l@)
}

/// Element-wise copy of a list of layer descriptions.
pub fn copy_layers(v: &Vec<LayerDesc>) -> (r: Vec<LayerDesc>)
    ensures
        layers_view(r@) == layers_view(v@),
{
    let mut r: Vec<LayerDesc> = Vec::new();
    let mut i: usize = 0;
    while i < v.len()
        invariant
            i <= v.len(),
            r.len() == i,
            forall|j: int| 0 <= j < i ==> (#[trigger] r@[j])@ == v@[j]@,
        decreases v.len() - i,
    {
        r.push(v[i].copy());
        i = i + 1;
    }
    assert(layers_view(r@) =~= layers_view(v@));
    r
}

/// Element-wise copy of a list of parameter slices.
pub fn copy_slices(v: &Vec<ParamSlice>) -> (r: Vec<ParamSlice>)
    ensures
        r@ == v@,
{
    let mut r: Vec<ParamSlice> = Vec::new();
    let mut i: usize = 0;
    while i < v.len()
        invariant
            i <= v.len(),
            r@ == v@.subrange(0, i as int),
        decreases v.len() - i,
    {
        r.push(v[i]);
        i = i + 1;
    }
    assert(r@ =~= v@);
    r
}

} // verus!

verus! {

/// Element-wise copy of a list of chunk layouts.
fn copy_layout(v: &Vec<(usize, usize, usize)>) -> (r: Vec<(usize, usize, usize)>)
    ensures
        r@ == v@,
{
    let mut r: Vec<(usize, usize, usize)> = Vec::new();
    let mut i: usize = 0;
    while i < v.len()
        invariant
            i <= v.len(),
            r@ == v@.subrange(0, i as int),
        decreases v.len() - i,
    {
        r.push(v[i]);
        i = i + 1;
    }
    assert(r@ =~= v@);
    r
}

/// The layout of chunked contexts (empty for sequential contexts).
pub open spec fn layout_view(c: &ForwardContextsV2) -> Seq<(usize, usize, usize)> {
    match c {
        ForwardContextsV2::Sequential(_) => Seq::empty(),
        ForwardContextsV2::Chunked { layout, .. } => layout@,
    }
}

impl ForwardContextsV2 {
    /// An independent copy of the contexts.
    pub fn copy(&self) -> (r: ForwardContextsV2)
        ensures
            chunks_view(&r) == chunks_view(self),
            layout_view(&r) == layout_view(self),
            (r is Sequential) == (self is Sequential),
    {
        match self {
            ForwardContextsV2::Sequential(v) => ForwardContextsV2::Sequential(copy_contexts(v)),
            ForwardContextsV2::Chunked { contexts, layout } => {
                let mut out: Vec<Vec<DynamicContext>> = Vec::new();
                let mut i: usize = 0;
                while i < contexts.len()
                    invariant
                        i <= contexts.len(),
                        out.len() == i,
                        forall|j: int|
                            0 <= j < i ==> contexts_view((#[trigger] out@[j])@) == contexts_view(
                                contexts@[j]@,
                            ),
                    decreases contexts.len() - i,
                {
                    out.push(copy_contexts(&contexts[i]));
                    i = i + 1;
                }
                let r = ForwardContextsV2::Chunked { contexts: out, layout: copy_layout(layout) };
                assert(chunks_view(&r) =~= chunks_view(self));
                r
            },
        }
    }
}

} // verus!

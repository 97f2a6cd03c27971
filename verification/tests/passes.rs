use std::cell::Cell;

use neurocore::backward::run_backward;
use neurocore::buffer::{MatrixBufferHandle, MemoryDeviceKind};
use neurocore::forward::run_forward;
use neurocore::graph_v2::GraphV2;
use neurocore::jobs::{ConnectorDirection, ConnectorOpKind, ForwardContextsV2, Job, JobResult};
use neurocore::layer::{LayerDesc, LayerKind};
use neurocore::param_store::ParamStore;

fn layer(kind: LayerKind, input: Vec<usize>, output: Vec<usize>, params: usize) -> LayerDesc {
    LayerDesc::new(kind, input, output, params)
}

fn branching() -> Vec<LayerDesc> {
    vec![
        layer(LayerKind::Linear { in_features: 4, out_features: 6 }, vec![4], vec![6], 30),
        layer(LayerKind::Splitter, vec![6], vec![2, 4], 50),
        layer(LayerKind::SplitterConnector, vec![2, 4], vec![2, 4], 0),
        layer(LayerKind::Tanh, vec![2], vec![2], 0),
        layer(LayerKind::SplitterConnector, vec![4], vec![4], 0),
        layer(LayerKind::Sigmoid, vec![4], vec![4], 0),
        layer(LayerKind::CombinerConnector, vec![2, 4], vec![2, 4], 0),
        layer(LayerKind::Combiner, vec![2, 4], vec![5], 35),
        layer(LayerKind::Unsqueeze, vec![5], vec![5, 1], 0),
        layer(LayerKind::ReduceMean, vec![5, 1], vec![5], 0),
        layer(LayerKind::Linear { in_features: 5, out_features: 1 }, vec![5], vec![1], 6),
    ]
}

fn h(id: u64, rows: usize, cols: usize) -> MatrixBufferHandle {
    MatrixBufferHandle::new(id, rows, cols, MemoryDeviceKind::HostRam)
}

/// A stand-in for the distributor: every job gets fresh buffers of the
/// right number, and the jobs are counted.
struct FakeDistributor {
    next: Cell<u64>,
    jobs: Cell<usize>,
}

impl FakeDistributor {
    fn new() -> Self {
        FakeDistributor { next: Cell::new(1000), jobs: Cell::new(0) }
    }

    fn fresh(&self, rows: usize) -> MatrixBufferHandle {
        let id = self.next.get();
        self.next.set(id + 1);
        h(id, rows, 1)
    }

    fn dispatch(&self, job: Job) -> JobResult {
        self.jobs.set(self.jobs.get() + 1);
        match job {
            Job::ForwardSegment(j) => JobResult::Forward {
                output: self.fresh(j.input.rows),
                contexts: ForwardContextsV2::Sequential(Vec::new()),
            },
            Job::BackwardSegment(j) => JobResult::Backward { grad_input: self.fresh(j.grad_output.rows) },
            Job::DimOp(j) => JobResult::Buffer(self.fresh(j.input.rows)),
            Job::ConnectorOp(j) => {
                let rows = j.inputs[0].rows;
                let n = match (j.direction, &j.kind) {
                    (ConnectorDirection::Forward, ConnectorOpKind::Splitter { .. }) => 4,
                    (ConnectorDirection::Forward, ConnectorOpKind::Combiner { .. }) => 2,
                    (ConnectorDirection::Backward, ConnectorOpKind::Splitter { .. }) => 1,
                    (ConnectorDirection::Backward, ConnectorOpKind::Combiner { .. }) => 2,
                };
                JobResult::Buffers((0..n).map(|_| self.fresh(rows)).collect())
            }
            Job::Migrate(_) => JobResult::Unit,
        }
    }
}

#[test]
fn a_full_pass_through_a_branching_graph() {
    let mut g = GraphV2::build(branching()).unwrap();
    assert_eq!(g.num_segments(), 8);
    let d = FakeDistributor::new();
    let dispatch = |job: Job| d.dispatch(job);
    let out = g.forward(&dispatch, h(1, 16, 4), None).unwrap();
    assert_eq!(d.jobs.get(), 8);
    assert_eq!(out.rows, 16);
    assert!(g.has_forward_cache());
    // the adapter pass accepts the cache a successful forward pass leaves
    let (batch, targets) = g.adapter_pass_targets().unwrap();
    assert_eq!(batch, 16);
    let idx: Vec<usize> = targets.iter().map(|t| t.segment_index).collect();
    assert_eq!(idx, vec![0, 2, 3, 7]);
    let gin = g.backward(&dispatch, h(2, 16, 1)).unwrap();
    assert_eq!(gin.rows, 16);
    assert_eq!(d.jobs.get(), 16);
    // the cache is put back after a successful backward pass
    assert!(g.has_forward_cache());
    let cache = g.take_forward_cache().unwrap();
    assert_eq!(cache.len(), 8);
    assert_eq!(cache.output, out);
    assert_eq!(cache.batch, 16);
    // the update ends the step: its cache is gone and the adapter pass is refused
    g.set_forward_cache(cache);
    g.clear_forward_cache();
    assert!(g.adapter_pass_targets().is_err());
}

#[test]
fn a_failing_distributor_fails_the_pass_and_leaves_no_cache() {
    let mut g = GraphV2::build(branching()).unwrap();
    let fail = |_job: Job| JobResult::Failed("device lost".to_string());
    match g.forward(&fail, h(1, 4, 4), None) {
        Err(e) => assert_eq!(e, "GraphV2::forward: segment 0 (Universal): device lost"),
        Ok(_) => panic!("the pass must fail"),
    }
    assert!(!g.has_forward_cache());
    assert!(g.backward(&fail, h(2, 4, 1)).is_err());
    // a forward pass that succeeds, then a backward pass that fails: the cache is gone
    let d = FakeDistributor::new();
    let ok = |job: Job| d.dispatch(job);
    g.forward(&ok, h(1, 4, 4), Some(vec![4, 3, 2, 1])).unwrap();
    assert!(g.backward(&fail, h(2, 4, 1)).is_err());
    assert!(!g.has_forward_cache());
}

#[test]
fn passes_over_no_segment_give_their_input_back() {
    let store = ParamStore::new();
    let segs = Vec::new();
    let never = |_job: Job| -> JobResult { panic!("no job expected") };
    let (out, cache) = run_forward(&never, &store, &segs, h(3, 2, 2), None).unwrap();
    assert_eq!(out, h(3, 2, 2));
    assert_eq!(cache.len(), 0);
    assert_eq!(cache.batch, 2);
    assert_eq!(run_backward(&never, &store, &segs, &cache, h(4, 2, 2)), Ok(h(4, 2, 2)));
}

#[test]
fn a_cache_for_other_segments_is_refused() {
    let g = GraphV2::build(branching()).unwrap();
    let store = ParamStore::new();
    let never = |_job: Job| -> JobResult { panic!("no job expected") };
    let (_, cache) = run_forward(&never, &store, &Vec::new(), h(3, 2, 2), None).unwrap();
    assert!(run_backward(&never, g.param_store(), g.segments(), &cache, h(4, 2, 1)).is_err());
}

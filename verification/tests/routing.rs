use neurocore::buffer::{MatrixBufferHandle, MemoryDeviceKind};
use neurocore::context::{BufferedContext, DynamicContext};
use neurocore::device_plan::ComputeDevice;
use neurocore::graph_v2::GraphV2;
use neurocore::jobs::JobResult;
use neurocore::layer::{LayerDesc, LayerKind};
use neurocore::unit_route::{unit_route, ContextRecord, UnitRoute};

fn h(id: u64) -> MatrixBufferHandle {
    MatrixBufferHandle::new(id, 2, 3, MemoryDeviceKind::HostRam)
}

fn ctx(id: u64) -> DynamicContext {
    DynamicContext::Buffered(BufferedContext::ReLU { input: h(id) })
}

#[test]
fn a_unit_on_a_gpu_runs_there() {
    assert_eq!(unit_route(ComputeDevice::Gpu { id: 0 }, true, 64, 8), UnitRoute::Gpu);
    assert_eq!(unit_route(ComputeDevice::Gpu { id: 1 }, false, 1, 1), UnitRoute::Gpu);
}

#[test]
fn a_cpu_unit_is_split_over_the_workers_only_when_it_pays() {
    let cpu = ComputeDevice::Cpu { id: 0, threads: 4 };
    assert_eq!(unit_route(cpu, true, 64, 4), UnitRoute::Parallel);
    assert_eq!(unit_route(cpu, false, 64, 4), UnitRoute::Sequential);
    assert_eq!(unit_route(cpu, true, 1, 4), UnitRoute::Sequential);
    assert_eq!(unit_route(cpu, true, 64, 1), UnitRoute::Sequential);
}

#[test]
fn the_record_keeps_each_units_last_chunks_and_all_chunks_in_order() {
    let mut r = ContextRecord::new();
    assert!(r.last.is_empty());
    r.record(1, vec![vec![ctx(1), ctx(2)]]);
    r.record(0, vec![vec![ctx(3)], vec![ctx(4)]]);
    r.record(1, vec![vec![ctx(5)]]);
    assert_eq!(r.all.len(), 4);
    assert_eq!(r.last.len(), 2);
    assert!(r.last.get(&2).is_none());
    assert_eq!(r.last[&0].len(), 2);
    match &r.last[&1][0][0] {
        DynamicContext::Buffered(BufferedContext::ReLU { input }) => assert_eq!(input.id, 5),
        _ => panic!("expected the last chunk of unit 1"),
    }
}

fn mlp() -> Vec<LayerDesc> {
    vec![
        LayerDesc::new(LayerKind::Linear { in_features: 4, out_features: 8 }, vec![4], vec![8], 40),
        LayerDesc::new(LayerKind::Splitter, vec![8], vec![3, 5], 64),
        LayerDesc::new(LayerKind::SplitterConnector, vec![3, 5], vec![3, 5], 0),
        LayerDesc::new(LayerKind::ReLU, vec![3], vec![3], 0),
        LayerDesc::new(LayerKind::CombinerConnector, vec![3, 5], vec![3, 5], 0),
        LayerDesc::new(LayerKind::Combiner, vec![3, 5], vec![2], 10),
    ]
}

#[test]
fn the_optimizer_runs_one_job_per_buffer_and_stops_at_the_first_failure() {
    let mut g = GraphV2::build(mlp()).unwrap();
    let n = g.param_store().num_buffers();
    assert!(n >= 3);
    let seen = std::cell::RefCell::new(Vec::new());
    let ok = |i: usize, _p: MatrixBufferHandle, _g: MatrixBufferHandle| {
        seen.borrow_mut().push(i);
        JobResult::Unit
    };
    assert_eq!(g.optimizer_pass("GraphV2::optimizer_modify_grads", &ok), Ok(()));
    assert_eq!(*seen.borrow(), (0..n).collect::<Vec<usize>>());
    seen.borrow_mut().clear();
    let fail_second = |i: usize, _p: MatrixBufferHandle, _g: MatrixBufferHandle| {
        seen.borrow_mut().push(i);
        if i == 1 { JobResult::Failed("nan".to_string()) } else { JobResult::Unit }
    };
    assert_eq!(
        g.optimizer_apply_update(&fail_second),
        Err("GraphV2::optimizer_apply_update: buffer 1: nan".to_string())
    );
    assert_eq!(*seen.borrow(), vec![0, 1]);
    let odd = |_i: usize, p: MatrixBufferHandle, _g: MatrixBufferHandle| JobResult::Buffers(vec![p]);
    assert_eq!(
        g.optimizer_pass("GraphV2::optimizer_modify_grads", &odd),
        Err("GraphV2::optimizer_modify_grads: buffer 0 unexpected JobResult".to_string())
    );
    assert_eq!(g.optimizer_apply_update(&ok), Ok(()));
    assert!(!g.has_forward_cache());
}

use neurocore::buffer::{DeviceId, MatrixBufferHandle, MemoryDeviceKind};
use neurocore::context::{BufferedContext, DynamicContext};
use neurocore::layer::{LayerDesc, LayerKind};
use neurocore::param_store::ParamSlice;
use neurocore::segment_plan::{plan_segment_backward, plan_segment_forward};

fn layer(kind: LayerKind, input: Vec<usize>, output: Vec<usize>, params: usize) -> LayerDesc {
    LayerDesc::new(kind, input, output, params)
}

fn h(id: u64, cols: usize) -> MatrixBufferHandle {
    MatrixBufferHandle::new(id, 2, cols, MemoryDeviceKind::HostRam)
}

fn segment() -> (Vec<LayerDesc>, Vec<ParamSlice>) {
    let layers = vec![
        layer(LayerKind::Linear { in_features: 4, out_features: 6 }, vec![4], vec![6], 30),
        layer(LayerKind::Memory, vec![6], vec![6], 0),
        layer(LayerKind::Tanh, vec![6], vec![6], 0),
        layer(LayerKind::Memory, vec![6], vec![6], 0),
        layer(LayerKind::Linear { in_features: 6, out_features: 2 }, vec![6], vec![2], 14),
    ];
    let slices = vec![
        ParamSlice::new(0, 0, 30),
        ParamSlice::new(0, 30, 0),
        ParamSlice::new(0, 30, 0),
        ParamSlice::new(0, 30, 0),
        ParamSlice::new(0, 30, 14),
    ];
    (layers, slices)
}

#[test]
fn forward_steps_chain_widths_and_number_memory_slots() {
    let (layers, slices) = segment();
    let steps = plan_segment_forward(&layers, &slices, 4).unwrap();
    let widths: Vec<usize> = steps.iter().map(|s| s.in_cols).collect();
    assert_eq!(widths, vec![4, 6, 6, 6, 6]);
    assert_eq!(steps[4].plan.out_features, 2);
    let slots: Vec<Option<usize>> = steps.iter().map(|s| s.memory_slot).collect();
    assert_eq!(slots, vec![None, Some(0), None, Some(1), None]);
    assert_eq!(steps[4].plan.views[0].start, 30);
}

#[test]
fn forward_planning_stops_at_the_shorter_list_and_refuses_unknown_layers() {
    let (layers, mut slices) = segment();
    slices.truncate(2);
    assert_eq!(plan_segment_forward(&layers, &slices, 4).unwrap().len(), 2);
    let bad = vec![layer(LayerKind::Splitter, vec![4], vec![2, 2], 0)];
    assert!(plan_segment_forward(&bad, &vec![ParamSlice::new(0, 0, 0)], 4).is_none());
    // nothing to pair: nothing to plan
    assert_eq!(plan_segment_forward(&bad, &Vec::new(), 4).unwrap().len(), 0);
}

#[test]
fn backward_steps_run_last_layer_first() {
    let (layers, slices) = segment();
    let contexts = vec![
        DynamicContext::Buffered(BufferedContext::Linear { input: h(1, 4) }),
        DynamicContext::Buffered(BufferedContext::Memory { input: h(2, 6) }),
        DynamicContext::Buffered(BufferedContext::Tanh { output: h(3, 6) }),
        DynamicContext::Buffered(BufferedContext::Memory { input: h(4, 6) }),
        DynamicContext::Buffered(BufferedContext::Linear { input: h(5, 6) }),
    ];
    let grads = MatrixBufferHandle::new(9, 44, 1, MemoryDeviceKind::DeviceVram(DeviceId(0)));
    let plan = plan_segment_backward(&layers, &slices, &contexts, 2, &grads).unwrap();
    assert!(plan.clear_grads);
    let order: Vec<usize> = plan.steps.iter().map(|s| s.layer).collect();
    assert_eq!(order, vec![4, 3, 2, 1, 0]);
    assert_eq!(plan.steps[0].saved, Some(h(5, 6)));
    assert_eq!(plan.steps[2].saved, Some(h(3, 6)));
    // memory layers read no context
    assert_eq!(plan.steps[1].saved, None);
    assert_eq!(plan.steps[3].saved, None);
    let widths: Vec<(usize, usize)> = plan.steps.iter().map(|s| (s.grad_cols, s.grad_input_cols)).collect();
    assert_eq!(widths, vec![(2, 6), (6, 6), (6, 6), (6, 6), (6, 4)]);
    // a host gradient buffer is not cleared
    let host = MatrixBufferHandle::new(9, 44, 1, MemoryDeviceKind::HostRam);
    assert!(!plan_segment_backward(&layers, &slices, &contexts, 2, &host).unwrap().clear_grads);
    // a context of another kind is refused
    let mut wrong = contexts;
    wrong[2] = DynamicContext::Buffered(BufferedContext::ReLU { input: h(3, 6) });
    assert!(plan_segment_backward(&layers, &slices, &wrong, 2, &grads).is_none());
}

#[test]
fn an_identity_layer_reads_no_context() {
    let layers = vec![layer(LayerKind::Identity, vec![3], vec![3], 0)];
    let slices = vec![ParamSlice::new(0, 0, 0)];
    let contexts = vec![DynamicContext::Buffered(BufferedContext::ReLU { input: h(1, 3) })];
    let grads = MatrixBufferHandle::new(9, 0, 0, MemoryDeviceKind::HostRam);
    let plan = plan_segment_backward(&layers, &slices, &contexts, 3, &grads).unwrap();
    assert_eq!(plan.steps.len(), 1);
    assert_eq!(plan.steps[0].saved, None);
    assert_eq!((plan.steps[0].grad_cols, plan.steps[0].grad_input_cols), (3, 3));
}

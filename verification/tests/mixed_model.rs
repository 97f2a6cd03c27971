use std::cell::RefCell;

use neurocore::buffer::{DeviceId, MatrixBufferHandle, MemoryDeviceKind};
use neurocore::device_plan::{ComputeDevice, DevicePlan};
use neurocore::layer::{LayerDesc, LayerKind};
use neurocore::mixed_model::{BufferMove, Device, MixedModel, ModelPlacement, Plan};
use neurocore::model::Model;
use neurocore::model_passes::get_proc_output_features;

fn layer(kind: LayerKind, input: Vec<usize>, output: Vec<usize>, params: usize) -> LayerDesc {
    LayerDesc::new(kind, input, output, params)
}

fn mlp() -> Vec<LayerDesc> {
    vec![
        layer(LayerKind::Linear { in_features: 4, out_features: 8 }, vec![4], vec![8], 40),
        layer(LayerKind::ReLU, vec![8], vec![8], 0),
        layer(LayerKind::Linear { in_features: 8, out_features: 2 }, vec![8], vec![2], 18),
    ]
}

fn h(id: u64, rows: usize, cols: usize) -> MatrixBufferHandle {
    MatrixBufferHandle::new(id, rows, cols, MemoryDeviceKind::HostRam)
}

#[test]
fn a_cpu_model_groups_layers_and_splits_threads() {
    let m = MixedModel::from_plan(mlp(), 4, 8);
    assert_eq!(m.models().len(), 1);
    assert!(matches!(m.models()[0], Model::UniversalProcessor(..)));
    assert_eq!(m.input_stream_count(), 1);
    assert_eq!(m.output_stream_count(), 1);
    // one control thread for eight cores, the other three compute
    assert_eq!(m.num_control_workers(), 1);
    assert_eq!(m.num_workers(), 3);
    assert_eq!(m.batch_size(), 1);
    assert_eq!(m.param_store().total_params(), 58);
    assert_eq!(m.input_shapes(), &vec![vec![4]]);
    assert_eq!(m.output_shapes(), &vec![vec![2]]);
}

#[test]
fn a_gpu_model_keeps_two_cpu_threads() {
    let m = MixedModel::from_plan_with_device(mlp(), 4, Device::Gpu { id: 0 }, 4);
    assert_eq!(m.num_control_workers(), 1);
    assert_eq!(m.num_workers(), 1);
    let m = MixedModel::from_plan_with_device(mlp(), 4, Device::Cpu { threads: 6 }, 16);
    assert_eq!(m.num_control_workers(), 2);
    assert_eq!(m.num_workers(), 4);
}

#[test]
fn a_device_plan_decides_threads_and_batch() {
    let plan = DevicePlan::empty().cpu(0, 10).ram(0, 1024).gpu(0).vram(1, 0, 2048);
    assert_eq!(plan.cpu_threads(), 10);
    assert!(plan.has_gpu());
    let m = MixedModel::build_with_device_plan_and_batch(Plan { layers: mlp() }, plan, 32, 4);
    assert_eq!(m.batch_size(), 32);
    assert_eq!(m.num_control_workers(), 1);
    // with a GPU, compute threads are capped at half the physical cores
    assert_eq!(m.num_workers(), 2);
    let plan = DevicePlan::empty().cpu(0, 3).cpu(1, 5);
    assert_eq!(plan.cpu_threads(), 8);
    assert!(!plan.has_gpu());
    let m = MixedModel::from_plan_with_device_plan(mlp(), plan, 8);
    assert_eq!(m.num_workers(), 7);
}

#[test]
fn migration_moves_each_buffer_once() {
    let mut m = MixedModel::from_plan(mlp(), 2, 2);
    let b = *m.param_store().get_param_buffer_by_idx(0);
    let vram = MemoryDeviceKind::DeviceVram(DeviceId(0));
    let placement = [ModelPlacement { compute_device: ComputeDevice::Gpu { id: 0 } }];
    let moved = RefCell::new(Vec::new());
    let mover = |id: u64, target: MemoryDeviceKind| -> Result<(), String> {
        moved.borrow_mut().push(BufferMove { handle_id: id, target });
        Ok(())
    };
    assert_eq!(m.migrate_parameters(&placement, &mover), Ok(()));
    assert_eq!(
        *moved.borrow(),
        vec![
            BufferMove { handle_id: b.params.id, target: vram },
            BufferMove { handle_id: b.grads.id, target: vram },
        ]
    );
    let b2 = *m.param_store().get_param_buffer_by_idx(0);
    assert_eq!(b2.location, vram);
    assert_eq!(b2.params.location, vram);
    assert_eq!(b2.len, b.len);
    // already in place: nothing moves
    moved.borrow_mut().clear();
    assert_eq!(m.migrate_parameters(&placement, &mover), Ok(()));
    assert!(moved.borrow().is_empty());
    // back to the host
    let placement = [ModelPlacement { compute_device: ComputeDevice::Cpu { id: 0, threads: 2 } }];
    assert_eq!(m.migrate_parameters(&placement, &mover), Ok(()));
    assert_eq!(moved.borrow().len(), 2);
    assert_eq!(m.param_store().get_param_buffer_by_idx(0).location, MemoryDeviceKind::HostRam);
}

#[test]
fn a_failed_move_stops_the_migration_and_names_the_unit() {
    let layers = vec![
        layer(LayerKind::Linear { in_features: 4, out_features: 8 }, vec![4], vec![8], 40),
        layer(LayerKind::Unsqueeze, vec![8], vec![8, 1], 0),
        layer(LayerKind::ReduceMean, vec![8, 1], vec![8], 0),
        layer(LayerKind::Linear { in_features: 8, out_features: 2 }, vec![8], vec![2], 18),
    ];
    let mut m = MixedModel::from_plan(layers, 2, 2);
    assert_eq!(m.models().len(), 4);
    let gpu = ModelPlacement { compute_device: ComputeDevice::Gpu { id: 0 } };
    let placement = [gpu, gpu, gpu, gpu];
    let last = *m.param_store().get_param_buffer_by_idx(1);
    let calls = RefCell::new(0usize);
    // the gradients of the last unit cannot move
    let mover = |id: u64, _target: MemoryDeviceKind| -> Result<(), String> {
        *calls.borrow_mut() += 1;
        if id == last.grads.id { Err("out of memory".to_string()) } else { Ok(()) }
    };
    assert_eq!(
        m.migrate_parameters(&placement, &mover),
        Err("Failed to move grads for model 3: out of memory".to_string())
    );
    assert_eq!(*calls.borrow(), 4);
    let vram = MemoryDeviceKind::DeviceVram(DeviceId(0));
    // the first unit keeps its new place, the failed one its old one
    assert_eq!(m.param_store().get_param_buffer_by_idx(0).location, vram);
    assert_eq!(m.param_store().get_param_buffer_by_idx(1).location, MemoryDeviceKind::HostRam);
}

#[test]
fn forward_and_backward_steps_keep_the_streams() {
    let m = MixedModel::from_plan(mlp(), 2, 2);
    let x = h(1, 5, 4);
    assert_eq!(m.forward_batch(&vec![x]), Some(5));
    let y = h(2, 5, 2);
    let streams = m.forward_step(0, vec![x], vec![y]);
    assert_eq!(streams, vec![y]);
    let gx = h(3, 5, 4);
    let grads = m.backward_step(0, vec![h(4, 5, 2)], vec![gx]);
    assert_eq!(grads, vec![gx]);
}

#[test]
fn output_features_follow_the_last_linear_layer() {
    let layers = mlp();
    assert_eq!(get_proc_output_features(&layers, &h(1, 3, 4)), 2);
    let acts = vec![layer(LayerKind::ReLU, vec![4], vec![4], 0)];
    assert_eq!(get_proc_output_features(&acts, &h(1, 3, 7)), 7);
}

#[test]
fn units_report_their_parameter_buffers() {
    let layers = vec![
        layer(LayerKind::Linear { in_features: 4, out_features: 6 }, vec![4], vec![6], 30),
        layer(LayerKind::Splitter, vec![6], vec![2, 4], 50),
        layer(LayerKind::Unsqueeze, vec![2], vec![1, 2], 0),
    ];
    let m = MixedModel::from_plan(layers, 2, 2);
    assert_eq!(m.models().len(), 3);
    let b0 = *m.param_store().get_param_buffer_by_idx(0);
    let b1 = *m.param_store().get_param_buffer_by_idx(1);
    assert_eq!(m.get_params_handle_for_model(0), Some(b0.params));
    assert_eq!(m.get_grads_handle_for_model(0), Some(b0.grads));
    assert_eq!(m.get_params_handle_for_model(1), Some(b1.params));
    assert_eq!(m.get_grads_handle_for_model(1), Some(b1.grads));
    assert_eq!(m.get_params_handle_for_model(2), None);
    assert_eq!(m.get_grads_handle_for_model(2), None);
}

#[test]
fn units_say_how_many_buffers_their_kernels_produce() {
    let m = MixedModel::from_plan(mlp(), 2, 2);
    assert_eq!(m.forward_output_count(0, 1), Some(1));
    assert_eq!(m.backward_output_count(0, 1), Some(1));
    let layers = vec![
        layer(LayerKind::Splitter, vec![6], vec![2, 4], 50),
        layer(LayerKind::SplitterConnector, vec![2, 4], vec![2, 4], 0),
        layer(LayerKind::Tanh, vec![4], vec![4], 0),
        layer(LayerKind::Combiner, vec![2, 4], vec![5], 35),
    ];
    let m = MixedModel::from_plan(layers, 2, 2);
    assert_eq!(m.models().len(), 3);
    // the splitter takes one stream and makes two
    assert_eq!(m.forward_output_count(0, 1), Some(2));
    assert_eq!(m.forward_output_count(0, 2), None);
    assert_eq!(m.backward_output_count(0, 2), Some(1));
    assert_eq!(m.backward_output_count(0, 1), None);
    // the processor works on the branch its input size selects
    assert_eq!(m.forward_output_count(1, 2), Some(1));
    assert_eq!(m.forward_output_count(1, 1), None);
    let x = h(1, 3, 2);
    let y = h(2, 3, 4);
    let z = h(3, 3, 4);
    assert_eq!(m.forward_step(1, vec![x, y], vec![z]), vec![x, z]);
    // the combiner joins two streams into one
    assert_eq!(m.forward_output_count(2, 2), Some(1));
    assert_eq!(m.backward_output_count(2, 1), Some(2));
}

#[test]
fn grouping_keeps_layers_in_order_and_allocates_what_they_ask() {
    let layers = vec![
        layer(LayerKind::Linear { in_features: 4, out_features: 6 }, vec![4], vec![6], 30),
        layer(LayerKind::Splitter, vec![6], vec![2, 4], 50),
        layer(LayerKind::SplitterConnector, vec![2, 4], vec![2, 4], 0),
        layer(LayerKind::Tanh, vec![2], vec![2], 0),
        layer(LayerKind::SplitterConnector, vec![4], vec![4], 0),
        layer(LayerKind::Sigmoid, vec![4], vec![4], 0),
        layer(LayerKind::CombinerConnector, vec![2, 4], vec![2, 4], 0),
        layer(LayerKind::Combiner, vec![2, 4], vec![5], 35),
        layer(LayerKind::Linear { in_features: 5, out_features: 1 }, vec![5], vec![1], 6),
    ];
    let m = MixedModel::from_plan(layers, 2, 2);
    let mut kinds = Vec::new();
    let mut others = 0;
    for u in m.models() {
        match u {
            Model::UniversalProcessor(ls, slices, _) => {
                assert_eq!(ls.len(), slices.len());
                kinds.extend(ls.iter().map(|l| l.kind));
            }
            _ => others += 1,
        }
    }
    assert_eq!(
        kinds,
        vec![
            LayerKind::Linear { in_features: 4, out_features: 6 },
            LayerKind::Tanh,
            LayerKind::Sigmoid,
            LayerKind::Linear { in_features: 5, out_features: 1 },
        ]
    );
    assert_eq!(others, 2);
    assert_eq!(m.param_store().total_params(), 121);
}

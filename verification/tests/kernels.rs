use neurocore::buffer::{MatrixBufferHandle, MemoryDeviceKind};
use neurocore::context::{BufferedContext, DynamicContext};
use neurocore::kernels::{
    combiner_param_views, grad_input_features, layer_context, layer_kernel_plan, saved_buffer, scratch_plan,
    splitter_param_views,
    ParamView, Saved,
};
use neurocore::layer::{LayerDesc, LayerKind};

fn layer(kind: LayerKind, input: Vec<usize>, output: Vec<usize>, params: usize) -> LayerDesc {
    LayerDesc::new(kind, input, output, params)
}

fn h(id: u64) -> MatrixBufferHandle {
    MatrixBufferHandle::new(id, 2, 3, MemoryDeviceKind::HostRam)
}

#[test]
fn a_linear_layer_reads_weights_then_biases() {
    let d = layer(LayerKind::Linear { in_features: 4, out_features: 8 }, vec![4], vec![8], 40);
    let p = layer_kernel_plan(&d, 10, 4).unwrap();
    assert_eq!(p.out_features, 8);
    assert_eq!(p.views, vec![ParamView { start: 10, len: 32 }, ParamView { start: 42, len: 8 }]);
    assert_eq!(p.saves, Saved::Input);
    assert!(!p.memory_slot);
    // the ranges end where the layer's 40 parameters end
    assert_eq!(p.views[1].start + p.views[1].len, 10 + 40);
    assert_eq!(grad_input_features(d.kind, 8), 4);
}

#[test]
fn activations_keep_their_width() {
    let s = layer(LayerKind::Sigmoid, vec![6], vec![6], 0);
    let p = layer_kernel_plan(&s, 3, 6).unwrap();
    assert_eq!(p.out_features, 6);
    assert!(p.views.is_empty());
    assert_eq!(p.saves, Saved::Output);
    let m = layer(LayerKind::Memory, vec![6], vec![6], 0);
    let p = layer_kernel_plan(&m, 0, 6).unwrap();
    assert!(p.memory_slot);
    assert_eq!(p.saves, Saved::Input);
    assert_eq!(grad_input_features(LayerKind::ReLU, 6), 6);
}

#[test]
fn gates_and_anchors_read_per_feature_parameters() {
    let g = layer(LayerKind::SoftSparseGate, vec![5], vec![5], 5);
    assert_eq!(layer_kernel_plan(&g, 7, 5).unwrap().views, vec![ParamView { start: 7, len: 5 }]);
    let a = layer(LayerKind::DualAnchor, vec![5], vec![5], 11);
    assert_eq!(
        layer_kernel_plan(&a, 0, 5).unwrap().views,
        vec![ParamView { start: 0, len: 5 }, ParamView { start: 5, len: 5 }, ParamView { start: 10, len: 1 }]
    );
    let no_input = layer(LayerKind::SoftKeepGate, vec![], vec![5], 5);
    assert!(layer_kernel_plan(&no_input, 0, 5).is_none());
}

#[test]
fn unknown_or_oversized_layers_have_no_plan() {
    let s = layer(LayerKind::Splitter, vec![4], vec![2, 2], 10);
    assert!(layer_kernel_plan(&s, 0, 4).is_none());
    let big = layer(LayerKind::Linear { in_features: usize::MAX, out_features: 2 }, vec![1], vec![2], 0);
    assert!(layer_kernel_plan(&big, 0, 1).is_none());
    let late = layer(LayerKind::Linear { in_features: 1, out_features: 1 }, vec![1], vec![1], 2);
    assert!(layer_kernel_plan(&late, usize::MAX - 1, 1).is_none());
    assert!(layer_kernel_plan(&late, usize::MAX - 2, 1).is_some());
}

#[test]
fn contexts_keep_the_buffer_the_backward_kernels_read() {
    let (i, o) = (h(1), h(2));
    let c = layer_context(LayerKind::Tanh, i, o, &Vec::new()).unwrap();
    assert!(matches!(c, DynamicContext::Buffered(BufferedContext::Tanh { .. })));
    assert_eq!(saved_buffer(LayerKind::Tanh, &c), Some(Some(o)));
    assert_eq!(saved_buffer(LayerKind::ReLU, &c), None);
    let c = layer_context(LayerKind::Linear { in_features: 3, out_features: 3 }, i, o, &Vec::new()).unwrap();
    assert_eq!(saved_buffer(LayerKind::Linear { in_features: 3, out_features: 3 }, &c), Some(Some(i)));
    // identity and memory layers read no context, whatever it is
    assert_eq!(saved_buffer(LayerKind::Identity, &c), Some(None));
    assert_eq!(saved_buffer(LayerKind::Memory, &c), Some(None));
    assert!(layer_context(LayerKind::Combiner, i, o, &Vec::new()).is_none());
}

#[test]
fn connectors_read_both_weight_blocks_then_biases() {
    let v = splitter_param_views(6, 2, 4, 10).unwrap();
    assert_eq!(
        v,
        vec![
            ParamView { start: 10, len: 12 },
            ParamView { start: 22, len: 24 },
            ParamView { start: 46, len: 2 },
            ParamView { start: 48, len: 4 },
        ]
    );
    // (2 + 4) * 6 weights and 2 + 4 biases
    assert_eq!(v[3].start + v[3].len, 10 + 42);
    let c = combiner_param_views(4, 5, 0).unwrap();
    assert_eq!(
        c,
        vec![ParamView { start: 0, len: 20 }, ParamView { start: 20, len: 20 }, ParamView { start: 40, len: 5 }]
    );
    assert!(splitter_param_views(usize::MAX, 2, 1, 0).is_none());
    assert!(combiner_param_views(1, 1, usize::MAX - 2).is_none());
    assert!(combiner_param_views(1, 1, usize::MAX - 3).is_some());
}

#[test]
fn the_newer_layers_read_their_parameter_blocks() {
    let d = layer(LayerKind::DualSlopeReLU { features: 5 }, vec![5], vec![5], 10);
    let p = layer_kernel_plan(&d, 4, 5).unwrap();
    assert_eq!(p.views, vec![ParamView { start: 4, len: 5 }, ParamView { start: 9, len: 5 }]);
    assert_eq!(p.out_features, 5);
    let d = layer(LayerKind::LearnableSoftplus { features: 3 }, vec![6], vec![3], 6);
    let p = layer_kernel_plan(&d, 0, 6).unwrap();
    assert_eq!(p.views, vec![ParamView { start: 0, len: 3 }, ParamView { start: 3, len: 3 }]);
    assert_eq!(p.out_features, 3);
    let d = layer(LayerKind::FeatureFusion { in_features: 4, out_features: 2 }, vec![4], vec![2], 10);
    let p = layer_kernel_plan(&d, 1, 4).unwrap();
    assert_eq!(p.views, vec![ParamView { start: 1, len: 10 }]);
    assert_eq!(p.out_features, 2);
    assert_eq!(grad_input_features(d.kind, 2), 4);
    let d = layer(LayerKind::MultiResolutionKAN { in_features: 3, out_features: 2 }, vec![3], vec![2], 74);
    assert_eq!(layer_kernel_plan(&d, 0, 3).unwrap().views, vec![ParamView { start: 0, len: 74 }]);
    let d = layer(LayerKind::Mamba { seq_len: 4, input_dim: 3, state_dim: 2 }, vec![12], vec![12], 18);
    let p = layer_kernel_plan(&d, 0, 12).unwrap();
    assert_eq!(p.views, vec![ParamView { start: 0, len: 4 + 6 + 6 + 2 }]);
    assert_eq!(p.out_features, 12);
    let d = layer(LayerKind::IndRNN { seq_len: 2, input_dim: 3 }, vec![6], vec![6], 15);
    assert_eq!(layer_kernel_plan(&d, 0, 6).unwrap().views, vec![ParamView { start: 0, len: 15 }]);
    let d = layer(LayerKind::SpectralNormLinear { in_features: 3, out_features: 2 }, vec![3], vec![2], 9);
    assert_eq!(layer_kernel_plan(&d, 0, 3).unwrap().views, vec![ParamView { start: 0, len: 9 }]);
    assert_eq!(grad_input_features(d.kind, 2), 3);
    let d = layer(LayerKind::AdaptiveNormalization { features: 4 }, vec![4], vec![4], 28);
    assert_eq!(layer_kernel_plan(&d, 0, 4).unwrap().views, vec![ParamView { start: 0, len: 28 }]);
    let d = layer(LayerKind::ConcreteDropout, vec![4], vec![4], 1);
    let p = layer_kernel_plan(&d, 2, 4).unwrap();
    assert_eq!(p.views, vec![ParamView { start: 2, len: 1 }]);
    assert_eq!(p.out_features, 4);
    // a kernel that would read past the end of memory is refused
    let d = layer(LayerKind::BatchRenorm { features: usize::MAX / 2 }, vec![1], vec![1], 0);
    assert!(layer_kernel_plan(&d, 0, 1).is_none());
}

#[test]
fn scratch_buffers_go_into_the_context() {
    let (i, o) = (h(1), h(2));
    let kind = LayerKind::AdaptiveDropout { features: 3 };
    assert!(layer_context(kind, i, o, &Vec::new()).is_none());
    let c = layer_context(kind, i, o, &vec![h(3), h(4)]).unwrap();
    match &c {
        DynamicContext::Buffered(BufferedContext::AdaptiveDropout { input, mask, arg }) => {
            assert_eq!((*input, *mask, *arg), (i, h(3), h(4)));
        }
        _ => panic!("expected an adaptive dropout context"),
    }
    assert_eq!(saved_buffer(kind, &c), Some(Some(i)));
    let kind = LayerKind::RelativePositionAttention { seq_len: 2, d_model: 2, in_features: 4, out_features: 4, param_len: 16 };
    assert!(layer_context(kind, i, o, &vec![h(3); 4]).is_none());
    assert_eq!(saved_buffer(kind, &layer_context(kind, i, o, &vec![h(3); 5]).unwrap()), Some(Some(i)));
}

#[test]
fn scratch_shapes_follow_the_batch() {
    assert_eq!(scratch_plan(LayerKind::AdaptiveDropout { features: 3 }, 8, 3), Some(vec![(8, 3), (8, 3)]));
    assert_eq!(scratch_plan(LayerKind::ConcreteDropout, 8, 5), Some(vec![(40, 1)]));
    assert_eq!(scratch_plan(LayerKind::Mamba { seq_len: 4, input_dim: 3, state_dim: 2 }, 8, 12), Some(vec![(64, 1)]));
    assert_eq!(
        scratch_plan(LayerKind::LinearAttention { seq_len: 2, d_model: 3, in_features: 6, out_features: 6, param_len: 0 }, 4, 6),
        Some(vec![(8, 3), (8, 3), (8, 3), (8, 3), (8, 3), (9, 1), (3, 1)])
    );
    assert_eq!(scratch_plan(LayerKind::ReLU, 8, 5), Some(Vec::new()));
    assert_eq!(scratch_plan(LayerKind::ConcreteDropout, usize::MAX, 2), None);
}

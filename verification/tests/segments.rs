use neurocore::buffer::MemoryDeviceKind;
use neurocore::builder::build_segments;
use neurocore::graph::SegmentKindV2;
use neurocore::jobs::{ConnectorOpKind, DimOpKind};
use neurocore::layer::{LayerDesc, LayerKind};
use neurocore::param_store::{ParamSlice, ParamStore};
use neurocore::plan_check::{graph_buildable, layers_have_streams, mixed_model_buildable, requested_param_count};

fn layer(kind: LayerKind, input: Vec<usize>, output: Vec<usize>, params: usize) -> LayerDesc {
    LayerDesc::new(kind, input, output, params)
}

fn linear(i: usize, o: usize) -> LayerDesc {
    layer(
        LayerKind::Linear { in_features: i, out_features: o },
        vec![i],
        vec![o],
        i * o + o,
    )
}

fn slices_of(kind: &SegmentKindV2) -> Vec<ParamSlice> {
    match kind {
        SegmentKindV2::Universal { slices, .. } => slices.clone(),
        _ => panic!("not a universal segment"),
    }
}

fn mlp() -> Vec<LayerDesc> {
    vec![
        linear(4, 8),
        layer(LayerKind::ReLU, vec![8], vec![8], 0),
        linear(8, 2),
    ]
}

fn branching() -> Vec<LayerDesc> {
    vec![
        layer(LayerKind::Linear { in_features: 4, out_features: 6 }, vec![4], vec![6], 30),
        layer(LayerKind::Splitter, vec![6], vec![2, 4], 50),
        layer(LayerKind::SplitterConnector, vec![2, 4], vec![2, 4], 0),
        layer(LayerKind::Tanh, vec![2], vec![2], 0),
        layer(LayerKind::SplitterConnector, vec![4], vec![4], 0),
        layer(LayerKind::Sigmoid, vec![4], vec![4], 0),
        layer(LayerKind::CombinerConnector, vec![2, 4], vec![2, 4], 0),
        layer(LayerKind::Combiner, vec![2, 4], vec![5], 35),
        layer(LayerKind::Linear { in_features: 5, out_features: 1 }, vec![5], vec![1], 6),
    ]
}

#[test]
fn consecutive_layers_form_one_universal_segment() {
    let mut store = ParamStore::new();
    let segs = build_segments(&mlp(), &mut store, MemoryDeviceKind::HostRam).unwrap();
    assert_eq!(segs.len(), 1);
    let s = &segs[0];
    assert_eq!(s.index, 0);
    assert_eq!(s.input_shape, vec![4]);
    assert_eq!(s.output_shape, vec![2]);
    assert_eq!(s.stream_count, 1);
    assert_eq!(s.stream_indices, None);
    match &s.kind {
        SegmentKindV2::Universal { layers, slices } => {
            assert_eq!(layers.len(), 3);
            assert_eq!(
                slices,
                &vec![ParamSlice::new(0, 0, 40), ParamSlice::new(0, 40, 0), ParamSlice::new(0, 40, 18)]
            );
        }
        _ => panic!("expected a universal segment"),
    }
    assert_eq!(store.num_buffers(), 1);
    assert_eq!(store.total_params(), 58);
    let b = store.get_param_buffer_by_idx(0);
    assert_eq!(b.len, 58);
    assert_eq!(b.params.rows, 58);
    assert_eq!(b.params.cols, 1);
    assert_eq!(b.location, MemoryDeviceKind::HostRam);
}

#[test]
fn branches_get_stream_indices_and_connectors_get_segments() {
    let mut store = ParamStore::new();
    let segs = build_segments(&branching(), &mut store, MemoryDeviceKind::HostRam).unwrap();
    assert_eq!(segs.len(), 6);
    for (k, s) in segs.iter().enumerate() {
        assert_eq!(s.index, k);
    }
    assert_eq!(slices_of(&segs[0].kind), vec![ParamSlice::new(0, 0, 30)]);
    assert_eq!(segs[0].stream_indices, None);
    match &segs[1].kind {
        SegmentKindV2::Connector { kind: ConnectorOpKind::Splitter { input_dim, output_dims, slice } } => {
            assert_eq!(*input_dim, 6);
            assert_eq!(output_dims, &vec![2, 4]);
            assert_eq!(*slice, ParamSlice::new(1, 0, 50));
        }
        _ => panic!("expected a splitter"),
    }
    assert_eq!(segs[1].stream_count, 2);
    assert_eq!(segs[2].stream_indices, Some(vec![0]));
    assert_eq!(slices_of(&segs[2].kind), vec![ParamSlice::new(2, 0, 0)]);
    assert_eq!(segs[3].stream_indices, Some(vec![1]));
    match &segs[4].kind {
        SegmentKindV2::Connector { kind: ConnectorOpKind::Combiner { input_dim, output_dim, slice } } => {
            assert_eq!(*input_dim, 2);
            assert_eq!(*output_dim, 5);
            assert_eq!(*slice, ParamSlice::new(4, 0, 35));
        }
        _ => panic!("expected a combiner"),
    }
    assert_eq!(segs[4].stream_count, 1);
    assert_eq!(segs[5].stream_indices, Some(vec![0]));
    assert_eq!(store.num_buffers(), 6);
    // every ordinary layer and every learnable connector got its parameters
    assert_eq!(store.total_params(), 30 + 50 + 35 + 6);
}

#[test]
fn dimension_changes_become_their_own_segments() {
    let layers = vec![
        layer(LayerKind::Linear { in_features: 4, out_features: 4 }, vec![4], vec![4], 20),
        layer(LayerKind::Unsqueeze, vec![4], vec![2, 2], 0),
        layer(LayerKind::ReduceMean, vec![2, 2], vec![4], 0),
        layer(LayerKind::ReLU, vec![4], vec![4], 0),
    ];
    let mut store = ParamStore::new();
    let segs = build_segments(&layers, &mut store, MemoryDeviceKind::HostRam).unwrap();
    assert_eq!(segs.len(), 4);
    match &segs[1].kind {
        SegmentKindV2::DimOp { kind: DimOpKind::Unsqueeze(d) } => assert_eq!(d, &vec![2, 2]),
        _ => panic!("expected an unsqueeze"),
    }
    match &segs[2].kind {
        SegmentKindV2::DimOp { kind: DimOpKind::ReduceMean(d) } => assert_eq!(d, &vec![4]),
        _ => panic!("expected a reduce-mean"),
    }
    assert_eq!(segs[1].input_shape, vec![4]);
    assert_eq!(segs[1].output_shape, vec![2, 2]);
    assert_eq!(store.num_buffers(), 2);
    assert_eq!(store.total_params(), 20);
}

#[test]
fn stream_markers_alone_create_no_segment() {
    let layers = vec![
        layer(LayerKind::SplitterConnector, vec![3], vec![3], 0),
        layer(LayerKind::CombinerConnector, vec![3], vec![3], 0),
    ];
    let mut store = ParamStore::new();
    let segs = build_segments(&layers, &mut store, MemoryDeviceKind::HostRam).unwrap();
    assert!(segs.is_empty());
    assert_eq!(store.num_buffers(), 0);
}

#[test]
fn splitter_with_wrong_streams_is_refused() {
    let layers = vec![layer(LayerKind::Splitter, vec![6], vec![6], 10)];
    let mut store = ParamStore::new();
    assert!(build_segments(&layers, &mut store, MemoryDeviceKind::HostRam).is_err());
    let layers = vec![layer(LayerKind::Splitter, vec![3, 3], vec![3, 3], 10)];
    let mut store = ParamStore::new();
    assert!(build_segments(&layers, &mut store, MemoryDeviceKind::HostRam).is_err());
}

#[test]
fn combiner_with_wrong_streams_is_refused() {
    let layers = vec![layer(LayerKind::Combiner, vec![6], vec![6], 10)];
    let mut store = ParamStore::new();
    assert!(build_segments(&layers, &mut store, MemoryDeviceKind::HostRam).is_err());
    let layers = vec![layer(LayerKind::Combiner, vec![3, 3], vec![3, 3], 10)];
    let mut store = ParamStore::new();
    assert!(build_segments(&layers, &mut store, MemoryDeviceKind::HostRam).is_err());
}

#[test]
fn parameters_go_to_the_requested_memory() {
    let mut store = ParamStore::new();
    let vram = MemoryDeviceKind::DeviceVram(neurocore::buffer::DeviceId(1));
    build_segments(&mlp(), &mut store, vram).unwrap();
    assert_eq!(store.get_param_buffer_by_idx(0).location, vram);
    assert_eq!(store.get_param_buffer_by_idx(0).params.location, vram);
}

#[test]
fn plans_are_checked_before_building() {
    assert!(layers_have_streams(&mlp()));
    assert!(graph_buildable(&branching()));
    assert!(mixed_model_buildable(&branching()));
    assert_eq!(requested_param_count(&branching()), Some(121));
    assert!(!mixed_model_buildable(&Vec::new()));
    assert!(graph_buildable(&Vec::new()));
    let no_input = vec![layer(LayerKind::ReLU, vec![], vec![3], 0)];
    assert!(!layers_have_streams(&no_input));
    assert!(!graph_buildable(&no_input));
    let no_output = vec![layer(LayerKind::Combiner, vec![2, 2], vec![], 4)];
    assert!(!layers_have_streams(&no_output));
    // markers and dimension changes read no stream of their own
    let markers = vec![layer(LayerKind::SplitterConnector, vec![], vec![], 0)];
    assert!(layers_have_streams(&markers));
    let huge = vec![
        layer(LayerKind::Identity, vec![1], vec![1], usize::MAX),
        layer(LayerKind::Identity, vec![1], vec![1], 1),
    ];
    assert_eq!(requested_param_count(&huge), None);
    assert!(!mixed_model_buildable(&huge));
}

use neurocore::buffer::{MatrixBufferHandle, MemoryDeviceKind};
use neurocore::graph::SegmentKindV2;
use neurocore::graph_v2::GraphV2;
use neurocore::layer::{LayerDesc, LayerKind};
use neurocore::mixed_model::MixedModel;
use neurocore::model::Model;

fn layer(kind: LayerKind, input: Vec<usize>, output: Vec<usize>, params: usize) -> LayerDesc {
    LayerDesc::new(kind, input, output, params)
}

fn h(id: u64, rows: usize, cols: usize) -> MatrixBufferHandle {
    MatrixBufferHandle::new(id, rows, cols, MemoryDeviceKind::HostRam)
}

fn branching() -> Vec<LayerDesc> {
    vec![
        layer(LayerKind::Linear { in_features: 4, out_features: 6 }, vec![4], vec![6], 30),
        layer(LayerKind::ReLU, vec![6], vec![6], 0),
        layer(LayerKind::Splitter, vec![6], vec![2, 4], 50),
        layer(LayerKind::SplitterConnector, vec![2, 4], vec![2, 4], 0),
        layer(LayerKind::Tanh, vec![2], vec![2], 0),
        layer(LayerKind::SplitterConnector, vec![4], vec![4], 0),
        layer(LayerKind::Sigmoid, vec![4], vec![4], 0),
        layer(LayerKind::CombinerConnector, vec![2, 4], vec![2, 4], 0),
        layer(LayerKind::Combiner, vec![2, 4], vec![5], 35),
        layer(LayerKind::Linear { in_features: 5, out_features: 1 }, vec![5], vec![1], 6),
    ]
}

#[test]
fn each_run_of_ordinary_layers_is_one_universal_segment() {
    // runs: [Linear, ReLU], [Tanh], [Sigmoid], [Linear]
    let g = GraphV2::build(branching()).unwrap();
    let universal = g
        .segments()
        .iter()
        .filter(|s| matches!(s.kind, SegmentKindV2::Universal { .. }))
        .count();
    assert_eq!(universal, 4);
    // a combiner marker does not end a run
    let joined = vec![
        layer(LayerKind::ReLU, vec![3], vec![3], 0),
        layer(LayerKind::CombinerConnector, vec![3], vec![3], 0),
        layer(LayerKind::Tanh, vec![3], vec![3], 0),
    ];
    let g = GraphV2::build(joined).unwrap();
    assert_eq!(g.num_segments(), 1);
}

#[test]
fn grouping_builds_no_marker_units() {
    let m = MixedModel::from_plan(branching(), 2, 2);
    assert!(m
        .models()
        .iter()
        .all(|u| !matches!(u, Model::SplitterConnector { .. } | Model::CombinerConnector { .. })));
    assert_eq!(m.input_stream_count(), 1);
    assert_eq!(m.output_stream_count(), 1);
    let ends_split = vec![
        layer(LayerKind::Linear { in_features: 4, out_features: 6 }, vec![4], vec![6], 30),
        layer(LayerKind::Splitter, vec![6], vec![2, 4], 50),
    ];
    let m = MixedModel::from_plan(ends_split, 2, 2);
    assert_eq!(m.output_stream_count(), 2);
}

#[test]
fn a_processor_leaves_the_streams_it_does_not_work_on() {
    let m = MixedModel::from_plan(branching(), 2, 2);
    // the unit after the splitter works on stream 0 only
    let k = m
        .models()
        .iter()
        .position(|u| matches!(u, Model::UniversalProcessor(_, _, Some(ix)) if ix == &vec![0]))
        .unwrap();
    let (a, b) = (h(1, 3, 2), h(2, 3, 4));
    let out = h(3, 3, 2);
    assert_eq!(m.forward_step(k, vec![a, b], vec![out]), vec![out, b]);
}

#[test]
fn units_follow_the_layer_list() {
    let m = MixedModel::from_plan(branching(), 2, 2);
    let mut kinds = Vec::new();
    for u in m.models() {
        match u {
            Model::UniversalProcessor(layers, slices, _) => assert_eq!(layers.len(), slices.len()),
            Model::Splitter { .. } => kinds.push("splitter"),
            Model::Combiner { .. } => kinds.push("combiner"),
            Model::Unsqueeze(_) => kinds.push("unsqueeze"),
            Model::ReduceMean(_) => kinds.push("reduce"),
            _ => kinds.push("marker"),
        }
    }
    assert_eq!(kinds, vec!["splitter", "combiner"]);
}

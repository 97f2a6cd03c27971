use neurocore::backward::{backward_segment_job, backward_segment_result, finish_backward, start_backward};
use neurocore::buffer::{DeviceId, MatrixBufferHandle, MemoryDeviceKind};
use neurocore::context::{BufferedContext, DynamicContext};
use neurocore::forward::{finish_forward, forward_segment_job, forward_segment_result, single_stream_index};
use neurocore::graph::SegmentForwardStateV2;
use neurocore::graph_v2::{loss_outcome, reassign_due, unit_outcome, GraphV2};
use neurocore::jobs::{ForwardContextsV2, Job, JobResult};
use neurocore::layer::{LayerDesc, LayerKind};

fn layer(kind: LayerKind, input: Vec<usize>, output: Vec<usize>, params: usize) -> LayerDesc {
    LayerDesc::new(kind, input, output, params)
}

fn mlp() -> Vec<LayerDesc> {
    vec![
        layer(LayerKind::Linear { in_features: 4, out_features: 8 }, vec![4], vec![8], 40),
        layer(LayerKind::ReLU, vec![8], vec![8], 0),
        layer(LayerKind::Linear { in_features: 8, out_features: 2 }, vec![8], vec![2], 18),
    ]
}

fn branching() -> Vec<LayerDesc> {
    vec![
        layer(LayerKind::Linear { in_features: 4, out_features: 6 }, vec![4], vec![6], 30),
        layer(LayerKind::Splitter, vec![6], vec![2, 4], 50),
        layer(LayerKind::SplitterConnector, vec![2, 4], vec![2, 4], 0),
        layer(LayerKind::Tanh, vec![2], vec![2], 0),
        layer(LayerKind::SplitterConnector, vec![4], vec![4], 0),
        layer(LayerKind::Sigmoid, vec![4], vec![4], 0),
        layer(LayerKind::CombinerConnector, vec![2, 4], vec![2, 4], 0),
        layer(LayerKind::Combiner, vec![2, 4], vec![5], 35),
        layer(LayerKind::Linear { in_features: 5, out_features: 1 }, vec![5], vec![1], 6),
    ]
}

fn h(id: u64, rows: usize, cols: usize) -> MatrixBufferHandle {
    MatrixBufferHandle::new(id, rows, cols, MemoryDeviceKind::HostRam)
}

#[test]
fn building_an_empty_graph_is_refused() {
    assert!(GraphV2::build(Vec::new()).is_err());
}

#[test]
fn a_built_graph_reports_its_shapes() {
    let g = GraphV2::build(branching()).unwrap();
    assert_eq!(g.num_segments(), 6);
    assert_eq!(g.input_shape(), &[4]);
    assert_eq!(g.output_shape(), &[1]);
    assert_eq!(g.seed(), None);
    assert!(!g.has_forward_cache());
    assert_eq!(g.param_store().total_params(), 121);
    let g = g.with_seed(7);
    assert_eq!(g.seed(), Some(7));
    assert_eq!(g.num_segments(), 6);
}

#[test]
fn backward_without_forward_is_refused() {
    let mut g = GraphV2::build(mlp()).unwrap();
    assert!(g.take_forward_cache().is_err());
}

#[test]
fn topology_infos_report_parameters_and_placement() {
    let mut g = GraphV2::build(branching()).unwrap();
    let infos = g.collect_segment_infos();
    assert_eq!(infos.len(), 6);
    let counts: Vec<usize> = infos.iter().map(|i| i.param_count).collect();
    // connectors report no parameters, as universal segments of zero size do
    assert_eq!(counts, vec![30, 0, 0, 0, 0, 6]);
    let b0 = *g.param_store().get_param_buffer_by_idx(0);
    assert_eq!(infos[0].param_handle, Some(b0.params));
    assert_eq!(infos[0].grad_handle, Some(b0.grads));
    assert_eq!(infos[0].current_param_location, MemoryDeviceKind::HostRam);
    assert_eq!(infos[1].param_handle, None);
    for (k, i) in infos.iter().enumerate() {
        assert_eq!(i.index, k);
        assert_eq!(i.adapter_state_handle, None);
    }
    let vram = MemoryDeviceKind::DeviceVram(DeviceId(0));
    g.move_param_buffer(5, vram);
    let infos = g.collect_segment_infos();
    assert_eq!(infos[5].current_param_location, vram);
    assert_eq!(infos[5].param_handle.unwrap().location, vram);
    assert_eq!(infos[0].current_param_location, MemoryDeviceKind::HostRam);
}

#[test]
fn init_ranges_tile_the_flat_parameters() {
    let g = GraphV2::build(branching()).unwrap();
    // buffers of sizes 30, 50, 0, 0, 35, 6: the empty ones get no range
    assert_eq!(
        g.init_param_ranges(),
        vec![(0, 0, 30), (1, 30, 50), (4, 80, 35), (5, 115, 6)]
    );
    let r = g.init_param_ranges();
    let last = r[r.len() - 1];
    assert_eq!(last.1 + last.2, g.param_store().total_params());
}

#[test]
fn optimizer_handles_cover_every_buffer() {
    let g = GraphV2::build(branching()).unwrap();
    let hs = g.param_buffer_handles();
    assert_eq!(hs.len(), 6);
    for (k, (idx, p, gr)) in hs.iter().enumerate() {
        assert_eq!(*idx, k);
        let b = g.param_store().get_param_buffer_by_idx(k);
        assert_eq!(*p, b.params);
        assert_eq!(*gr, b.grads);
    }
}

#[test]
fn reassignment_is_due_on_the_first_epoch() {
    assert!(reassign_due(0, false));
    assert!(!reassign_due(3, false));
    assert!(reassign_due(3, true));
}

#[test]
fn stream_index_selection() {
    assert_eq!(single_stream_index(0, None, 1, "Universal"), Ok(0));
    assert!(single_stream_index(0, None, 0, "Universal").is_err());
    assert_eq!(single_stream_index(0, Some(&[1usize][..]), 2, "DimOp"), Ok(1));
    assert!(single_stream_index(0, Some(&[2usize][..]), 2, "DimOp").is_err());
    assert!(single_stream_index(0, Some(&[0usize, 1][..]), 2, "DimOp").is_err());
}

#[test]
fn forward_then_backward_through_a_universal_segment() {
    let mut g = GraphV2::build(mlp()).unwrap();
    let seg = &g.segments()[0];
    let input = h(100, 8, 4);
    let streams = vec![input];
    let job = forward_segment_job(seg, &streams, g.param_store(), &None).unwrap();
    match &job {
        Job::ForwardSegment(j) => {
            assert_eq!(j.segment_index, 0);
            assert_eq!(j.input, input);
            assert_eq!(j.params, g.param_store().get_param_buffer_by_idx(0).params);
            assert_eq!(j.layers.len(), 3);
            assert_eq!(j.slices.len(), 3);
            assert_eq!(j.sample_lens, None);
        }
        _ => panic!("expected a forward segment job"),
    }
    let out = h(101, 8, 2);
    let ctx = DynamicContext::Buffered(BufferedContext::Linear { input });
    let result = JobResult::Forward { output: out, contexts: ForwardContextsV2::Sequential(vec![ctx]) };
    let (streams, state) = forward_segment_result(seg, streams, result).unwrap();
    assert_eq!(streams, vec![out]);
    assert!(matches!(state, SegmentForwardStateV2::Universal { .. }));
    let (y, cache) = finish_forward(streams, vec![state], 8, None).unwrap();
    assert_eq!(y, out);
    assert_eq!(cache.batch, 8);
    assert_eq!(cache.len(), 1);
    g.set_forward_cache(cache);
    assert!(g.has_forward_cache());

    let (batch, targets) = g.adapter_pass_targets().unwrap();
    assert_eq!(batch, 8);
    assert_eq!(targets.len(), 1);
    assert_eq!(targets[0].segment_index, 0);
    assert_eq!(targets[0].layers.len(), 3);
    assert_eq!(targets[0].contexts.len(), 1);
    assert_eq!(targets[0].params, g.param_store().get_param_buffer_by_idx(0).params);

    let cache = g.take_forward_cache().unwrap();
    assert!(!g.has_forward_cache());
    let delta = h(102, 8, 2);
    let grads = start_backward(&cache, g.segments(), delta).unwrap();
    assert_eq!(grads, vec![delta]);
    let seg = &g.segments()[0];
    let job = backward_segment_job(seg, &cache.segment_states[0], &grads, g.param_store()).unwrap();
    match &job {
        Job::BackwardSegment(j) => {
            assert_eq!(j.grad_output, delta);
            assert_eq!(j.grad_params, g.param_store().get_param_buffer_by_idx(0).grads);
        }
        _ => panic!("expected a backward segment job"),
    }
    let gin = h(103, 8, 4);
    let grads = backward_segment_result(
        seg,
        &cache.segment_states[0],
        grads,
        JobResult::Backward { grad_input: gin },
    )
    .unwrap();
    assert_eq!(finish_backward(grads), Ok(gin));
    g.set_forward_cache(cache);
    assert!(g.has_forward_cache());
    g.clear_forward_cache();
    assert!(!g.has_forward_cache());
}

#[test]
fn a_failed_job_fails_the_pass() {
    let g = GraphV2::build(mlp()).unwrap();
    let seg = &g.segments()[0];
    let r = forward_segment_result(seg, vec![h(1, 2, 4)], JobResult::Failed("boom".to_string()));
    match r {
        Err(e) => assert_eq!(e, "GraphV2::forward: segment 0 (Universal): boom"),
        Ok(_) => panic!("a failed job must fail the pass"),
    }
    let r = forward_segment_result(seg, vec![h(1, 2, 4)], JobResult::Unit);
    assert!(r.is_err());
}

#[test]
fn a_pass_must_end_with_one_stream() {
    assert!(finish_forward(vec![h(1, 1, 1), h(2, 1, 1)], Vec::new(), 1, None).is_err());
    assert!(finish_forward(Vec::new(), Vec::new(), 1, None).is_err());
    assert!(finish_backward(Vec::new()).is_err());
}

#[test]
fn connectors_split_and_join_streams() {
    let g = GraphV2::build(branching()).unwrap();
    let split = &g.segments()[1];
    let x = h(10, 4, 6);
    // a splitter needs exactly one stream
    assert!(forward_segment_job(split, &vec![x, x], g.param_store(), &None).is_err());
    let job = forward_segment_job(split, &vec![x], g.param_store(), &None).unwrap();
    assert!(matches!(job, Job::ConnectorOp(_)));
    let outs = vec![h(11, 4, 2), h(12, 4, 4), h(13, 4, 2), h(14, 4, 4)];
    let (streams, state) = forward_segment_result(split, vec![x], JobResult::Buffers(outs)).unwrap();
    assert_eq!(streams, vec![h(11, 4, 2), h(12, 4, 4)]);
    match &state {
        SegmentForwardStateV2::Connector { inputs, pre } => {
            assert_eq!(inputs, &vec![x]);
            assert_eq!(pre, &vec![h(13, 4, 2), h(14, 4, 4)]);
        }
        _ => panic!("expected a connector state"),
    }
    // three buffers do not fit a splitter
    let bad = forward_segment_result(split, vec![x], JobResult::Buffers(vec![x, x, x]));
    assert!(bad.is_err());
    // the universal segment after the splitter works on stream 0 only
    let tanh = &g.segments()[2];
    let job = forward_segment_job(tanh, &streams, g.param_store(), &None).unwrap();
    match job {
        Job::ForwardSegment(j) => assert_eq!(j.input, h(11, 4, 2)),
        _ => panic!("expected a forward segment job"),
    }
    let sig = &g.segments()[3];
    let job = forward_segment_job(sig, &streams, g.param_store(), &None).unwrap();
    match job {
        Job::ForwardSegment(j) => assert_eq!(j.input, h(12, 4, 4)),
        _ => panic!("expected a forward segment job"),
    }
    // the backward pass of the splitter takes back the two gradients
    let gi = h(20, 4, 6);
    let back = backward_segment_job(split, &state, &vec![h(21, 4, 2), h(22, 4, 4)], g.param_store());
    assert!(back.is_ok());
    let grads = backward_segment_result(
        split,
        &state,
        vec![h(21, 4, 2), h(22, 4, 4)],
        JobResult::Buffers(vec![gi]),
    )
    .unwrap();
    assert_eq!(grads, vec![gi]);
    // a stateless state does not fit a connector
    assert!(backward_segment_job(split, &SegmentForwardStateV2::Stateless, &vec![gi, gi], g.param_store()).is_err());
}

#[test]
fn adapter_pass_needs_a_matching_cache() {
    let mut g = GraphV2::build(branching()).unwrap();
    assert!(g.adapter_pass_targets().is_err());
    let (_, cache) = finish_forward(vec![h(1, 1, 1)], vec![SegmentForwardStateV2::Stateless], 1, None).unwrap();
    g.set_forward_cache(cache);
    // one state for six segments
    assert!(g.adapter_pass_targets().is_err());
    let states = vec![
        SegmentForwardStateV2::Universal { contexts: ForwardContextsV2::Sequential(Vec::new()) },
        SegmentForwardStateV2::Stateless,
        SegmentForwardStateV2::Universal { contexts: ForwardContextsV2::Chunked { contexts: Vec::new(), layout: Vec::new() } },
        SegmentForwardStateV2::Stateless,
        SegmentForwardStateV2::Stateless,
        SegmentForwardStateV2::Universal { contexts: ForwardContextsV2::Sequential(Vec::new()) },
    ];
    let (_, cache) = finish_forward(vec![h(1, 3, 1)], states, 3, None).unwrap();
    g.set_forward_cache(cache);
    let (batch, targets) = g.adapter_pass_targets().unwrap();
    assert_eq!(batch, 3);
    let idx: Vec<usize> = targets.iter().map(|t| t.segment_index).collect();
    // segment 3 is universal but its state is not, so it has no target
    assert_eq!(idx, vec![0, 2, 5]);
}

#[test]
fn loss_and_unit_answers() {
    let g = h(5, 2, 1);
    assert_eq!(loss_outcome(JobResult::Loss { value_bits: 0x3f80_0000, grad_pred: g }), Ok((0x3f80_0000, g)));
    assert_eq!(
        loss_outcome(JobResult::Failed("nan".to_string())),
        Err("GraphV2::loss: nan".to_string())
    );
    assert!(loss_outcome(JobResult::Unit).is_err());
    assert_eq!(unit_outcome("GraphV2::init_params", JobResult::Unit), Ok(()));
    assert_eq!(
        unit_outcome("GraphV2::optimizer_apply_update", JobResult::Failed("oom".to_string())),
        Err("GraphV2::optimizer_apply_update: oom".to_string())
    );
    assert!(unit_outcome("op", JobResult::Buffer(g)).is_err());
}

#[test]
fn refusals_name_what_went_wrong() {
    assert_eq!(GraphV2::build(Vec::new()).err(), Some("GraphV2::build: empty layer list".to_string()));
    assert_eq!(
        single_stream_index(3, Some(&[0usize, 1][..]), 2, "DimOp"),
        Err("GraphV2::forward: segment 3 (DimOp): stream_indices must be a single index, got [0, 1]".to_string())
    );
    assert_eq!(
        single_stream_index(7, Some(&[12usize][..]), 2, "Universal"),
        Err("GraphV2::forward: segment 7 (Universal): stream index 12 out of range (2 streams)".to_string())
    );
    assert_eq!(
        finish_forward(vec![h(1, 1, 1), h(2, 1, 1)], Vec::new(), 1, None).err(),
        Some("GraphV2::forward: expected single output stream, got 2".to_string())
    );
    assert_eq!(
        finish_backward(Vec::new()).err(),
        Some("GraphV2::backward: expected single input gradient, got 0".to_string())
    );
    let mut g = GraphV2::build(branching()).unwrap();
    assert_eq!(g.take_forward_cache().err(), Some("GraphV2::backward: forward_cache is empty".to_string()));
    let fail = |_job: Job| JobResult::Failed("x".to_string());
    assert_eq!(g.backward(&fail, h(2, 4, 1)).err(), Some("GraphV2::backward: forward_cache is empty".to_string()));
    assert!(g.adapter_pass_targets().err().unwrap().starts_with("GraphV2::adapter_pass: forward_cache is empty"));
    let (_, cache) = finish_forward(vec![h(1, 1, 1)], vec![SegmentForwardStateV2::Stateless], 1, None).unwrap();
    assert_eq!(
        start_backward(&cache, g.segments(), h(3, 1, 1)).err(),
        Some("GraphV2::backward: cache size (1) != segments count (6)".to_string())
    );
    g.set_forward_cache(cache);
    assert_eq!(
        g.adapter_pass_targets().err(),
        Some("GraphV2::adapter_pass: cache size (1) != segments count (6)".to_string())
    );
    assert_eq!(
        g.backward(&fail, h(2, 4, 1)).err(),
        Some("GraphV2::backward: cache size (1) != segments count (6)".to_string())
    );
}

#[test]
fn malformed_connectors_are_refused_with_their_stream_counts() {
    let bad_splitter = vec![layer(LayerKind::Splitter, vec![8, 8], vec![3, 5], 10)];
    assert_eq!(
        GraphV2::build(bad_splitter).err(),
        Some("GraphV2::build_segments: Splitter expects exactly 1 input stream, got 2".to_string())
    );
    let bad_splitter = vec![layer(LayerKind::Splitter, vec![8], vec![8], 10)];
    assert_eq!(
        GraphV2::build(bad_splitter).err(),
        Some("GraphV2::build_segments: Splitter expects exactly 2 output streams, got 1".to_string())
    );
    let bad_combiner = vec![layer(LayerKind::Combiner, vec![8], vec![8], 10)];
    assert_eq!(
        GraphV2::build(bad_combiner).err(),
        Some("GraphV2::build_segments: Combiner expects exactly 2 input streams, got 1".to_string())
    );
    let bad_combiner = vec![layer(LayerKind::Combiner, vec![2, 4], vec![3, 3], 10)];
    assert_eq!(
        GraphV2::build(bad_combiner).err(),
        Some("GraphV2::build_segments: Combiner expects exactly 1 output stream, got 2".to_string())
    );
}

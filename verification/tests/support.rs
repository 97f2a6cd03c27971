use std::collections::VecDeque;

use neurocore::buffer::{DeviceId, MatrixBufferHandle, MemoryDeviceKind};
use neurocore::context::{BufferedContext, DynamicContext};
use neurocore::executor::GpuExecutor;
use neurocore::gpu::{
    compute_queue_family, detect_gpus, device_local_memory_mb, GpuDeviceType, GpuInfo, MemoryHeap,
};
use neurocore::jobs::{ForwardContextsV2, Job, JobKind, JobResult, MigrateJob};
use neurocore::logger::{LogBuffer, LogRegistry};
use neurocore::observer::{
    classify_trend, is_plateau, next_plateau_counter, push_bounded, second_last, should_reassign,
    EpochCounters, LossTrendV2, WarningKind, WarningLimiter,
};
use neurocore::param_store::{ParamSlice, ParamStore};
use neurocore::tensor_layout::{check_shape_features, feature_count, flat_batch, to_column_major, to_row_major};
use neurocore::threads::split_cpu_threads;

#[test]
fn thread_split_examples() {
    assert_eq!(split_cpu_threads(8, false, 16), (2, 6));
    assert_eq!(split_cpu_threads(2, false, 1), (1, 1));
    assert_eq!(split_cpu_threads(16, true, 64), (4, 12));
    assert_eq!(split_cpu_threads(10, true, 4), (1, 2));
    // a GPU never leaves the CPU without a compute thread
    assert_eq!(split_cpu_threads(4, true, 1), (1, 1));
}

#[test]
fn layout_conversion_round_trips() {
    let flat = vec![1, 2, 3, 4, 5, 6];
    let col = to_column_major(&flat, 2, 3).unwrap();
    assert_eq!(col, vec![1, 4, 2, 5, 3, 6]);
    assert_eq!(to_row_major(&col, 2, 3), flat);
    assert!(to_column_major(&flat, 4, 2).is_err());
    let f = vec![0.5f32, -1.0, 2.0, 3.5];
    assert_eq!(to_row_major(&to_column_major(&f, 1, 4).unwrap(), 1, 4), f);
}

#[test]
fn shapes_and_batches() {
    assert_eq!(feature_count(&[2, 3]), 6);
    assert_eq!(feature_count(&[]), 1);
    assert_eq!(flat_batch(&[2, 3], 12), Ok(2));
    assert!(flat_batch(&[2, 3], 13).is_err());
    assert!(flat_batch(&[0], 4).is_err());
    assert!(flat_batch(&[1, 1, 1, 1, 1], 4).is_err());
    assert_eq!(flat_batch(&[4], 8), Ok(2));
    assert!(check_shape_features(&[2, 3], 6).is_ok());
    assert!(check_shape_features(&[2, 3], 5).is_err());
}

#[test]
fn bounded_windows_drop_the_oldest() {
    let mut q: VecDeque<u32> = VecDeque::new();
    for v in 1..=3 {
        push_bounded(&mut q, v, 3);
    }
    push_bounded(&mut q, 4, 3);
    assert_eq!(q, VecDeque::from(vec![2, 3, 4]));
    push_bounded(&mut q, 5, 0);
    assert_eq!(q, VecDeque::from(vec![2, 3, 4]));
    push_bounded(&mut q, 6, 1);
    assert_eq!(q, VecDeque::from(vec![6]));
    assert_eq!(second_last(&q), None);
    push_bounded(&mut q, 7, 5);
    assert_eq!(second_last(&q), Some(6));
}

#[test]
fn warnings_are_capped_per_kind() {
    let mut l = WarningLimiter::new(2);
    assert!(l.accept(WarningKind::LossIncrease));
    assert!(l.accept(WarningKind::LossIncrease));
    assert!(!l.accept(WarningKind::LossIncrease));
    assert_eq!(l.issued_count(WarningKind::LossIncrease), 2);
    assert!(l.accept(WarningKind::NanValue));
    assert_eq!(l.issued_count(WarningKind::NanValue), 1);
    let mut unlimited = WarningLimiter::new(0);
    for _ in 0..10 {
        assert!(unlimited.accept(WarningKind::GradientExplosion));
    }
    assert_eq!(unlimited.issued_count(WarningKind::GradientExplosion), 10);
}

#[test]
fn plateau_and_reassignment_decisions() {
    assert_eq!(next_plateau_counter(3, true, true), 0);
    assert_eq!(next_plateau_counter(3, false, true), 4);
    assert_eq!(next_plateau_counter(3, false, false), 3);
    assert!(is_plateau(5, 5));
    assert!(!is_plateau(4, 5));
    // any one condition fires a reassignment
    assert!(should_reassign(3, 0, 3, false, false));
    assert!(should_reassign(2, 0, 3, true, false));
    assert!(should_reassign(2, 0, 3, false, true));
    assert!(!should_reassign(2, 0, 3, false, false));
    assert!(!should_reassign(5, 4, 3, false, false));
    // an epoch counter behind the last reassignment counts as zero epochs
    assert!(!should_reassign(1, 4, 1, false, false));
    assert!(should_reassign(1, 4, 1, true, false));
}

#[test]
fn trend_classification() {
    assert_eq!(classify_trend(1, false, true, false), LossTrendV2::Unknown);
    assert_eq!(classify_trend(10, true, true, false), LossTrendV2::Unknown);
    assert_eq!(classify_trend(10, false, true, false), LossTrendV2::Decreasing);
    assert_eq!(classify_trend(10, false, false, true), LossTrendV2::Increasing);
    assert_eq!(classify_trend(10, false, false, false), LossTrendV2::Stable);
}

#[test]
fn gpu_detection_and_memory() {
    assert_eq!(detect_gpus(None), None);
    let gpus = vec![
        GpuInfo { name: "A".to_string(), memory_mb: 1024, device_type: GpuDeviceType::DiscreteGpu },
        GpuInfo { name: "B".to_string(), memory_mb: 0, device_type: GpuDeviceType::Cpu },
    ];
    assert_eq!(detect_gpus(Some(gpus)), Some(vec!["A".to_string(), "B".to_string()]));
    assert_eq!(detect_gpus(Some(Vec::new())), Some(Vec::new()));
    let heaps = vec![
        MemoryHeap { size: 2 << 30, device_local: true },
        MemoryHeap { size: 1 << 30, device_local: false },
        MemoryHeap { size: 512 << 20, device_local: true },
    ];
    assert_eq!(device_local_memory_mb(&heaps), Some(2560));
    assert_eq!(device_local_memory_mb(&Vec::new()), Some(0));
    let huge = vec![
        MemoryHeap { size: u64::MAX, device_local: true },
        MemoryHeap { size: u64::MAX, device_local: false },
    ];
    assert_eq!(device_local_memory_mb(&huge), Some(u64::MAX / (1024 * 1024)));
    let overflow = vec![
        MemoryHeap { size: u64::MAX, device_local: true },
        MemoryHeap { size: 1, device_local: true },
    ];
    assert_eq!(device_local_memory_mb(&overflow), None);
    assert_eq!(compute_queue_family(&vec![false, true, true]), Some(1));
    assert_eq!(compute_queue_family(&vec![false, false]), None);
}

#[test]
fn gpu_executor_runs_everything_in_one_chunk() {
    let e = GpuExecutor::new();
    assert_eq!(e.num_workers(), 1);
    assert_eq!(e.plan_chunks_assignment(10), vec![vec![(0, 10)]]);
    assert_eq!(e.plan_chunks_assignment(0), vec![Vec::<(usize, usize)>::new()]);
    e.wait_all();
}

#[test]
fn logs_keep_their_order() {
    let mut b = LogBuffer::new();
    b.log("first".to_string());
    b.log("second".to_string());
    assert_eq!(b.len(), 2);
    assert_eq!(b.messages(), &vec!["first".to_string(), "second".to_string()]);
    let mut r = LogRegistry::new();
    r.register_thread(7);
    r.register_thread(3);
    assert_eq!(r.registered(), &vec![7, 3]);
}

#[test]
fn param_store_allocates_consecutive_slices() {
    let mut s = ParamStore::new();
    let a = s.allocate_segment(&vec![3, 0, 5], MemoryDeviceKind::HostRam);
    assert_eq!(a, vec![ParamSlice::new(0, 0, 3), ParamSlice::new(0, 3, 0), ParamSlice::new(0, 3, 5)]);
    let b = s.allocate_segment(&vec![2], MemoryDeviceKind::HostRam);
    assert_eq!(b, vec![ParamSlice::new(1, 0, 2)]);
    assert_eq!(s.num_buffers(), 2);
    assert_eq!(s.total_params(), 10);
    assert_eq!(a[2].end(), 8);
    // the handles of different buffers are different
    assert_ne!(s.params_handle(&a[0]).id, s.params_handle(&b[0]).id);
    assert_ne!(s.params_handle(&a[0]).id, s.grads_handle(&a[0]).id);
    assert_eq!(s.params_handle(&a[1]).rows, 8);
    // an allocation that cannot fit leaves the store as it was
    let none = s.allocate_segment(&vec![usize::MAX], MemoryDeviceKind::HostRam);
    assert!(none.is_empty());
    assert_eq!(s.num_buffers(), 2);
    assert_eq!(s.total_params(), 10);
    let vram = MemoryDeviceKind::DeviceVram(DeviceId(2));
    s.move_buffer(1, vram);
    assert_eq!(s.get_param_buffer(&b[0]).location, vram);
    assert_eq!(s.grads_handle(&b[0]).location, vram);
    assert_eq!(s.get_param_buffer(&a[0]).location, MemoryDeviceKind::HostRam);
    assert_eq!(s.total_params(), 10);
}

#[test]
fn jobs_and_results() {
    let hnd = MatrixBufferHandle::new(1, 2, 3, MemoryDeviceKind::HostRam);
    assert_eq!(hnd.id(), 1);
    assert_eq!(hnd.rows(), 2);
    assert_eq!(hnd.cols(), 3);
    assert!(!hnd.is_gpu());
    assert!(MatrixBufferHandle::new(1, 2, 3, MemoryDeviceKind::DeviceVram(DeviceId(0))).is_gpu());
    let job = Job::Migrate(MigrateJob { handle: hnd, target: MemoryDeviceKind::HostRam });
    assert_eq!(job.kind(), JobKind::Migrate);
    assert!(JobResult::Failed("x".to_string()).is_failed());
    assert!(!JobResult::Unit.is_failed());
    assert_eq!(JobResult::Failed("why".to_string()).into_failed_message(), Some("why".to_string()));
    assert_eq!(JobResult::Buffer(hnd).into_failed_message(), None);
    let ctx = DynamicContext::Buffered(BufferedContext::ReLU { input: hnd });
    let chunked = ForwardContextsV2::Chunked {
        contexts: vec![vec![ctx.copy()], vec![]],
        layout: vec![(0, 0, 1), (1, 1, 1)],
    };
    assert_eq!(chunked.num_chunks(), 2);
    assert_eq!(chunked.first_chunk().len(), 1);
    let seq = ForwardContextsV2::Sequential(vec![ctx.copy(), ctx]);
    assert_eq!(seq.num_chunks(), 1);
    assert_eq!(seq.first_chunk().len(), 2);
    let empty = ForwardContextsV2::Chunked { contexts: Vec::new(), layout: Vec::new() };
    assert_eq!(empty.num_chunks(), 0);
    assert!(empty.first_chunk().is_empty());
}

#[test]
fn epoch_counters_reset_at_the_end_of_an_epoch() {
    let mut c = EpochCounters::new();
    c.record_step(true);
    c.record_step(false);
    assert_eq!(c.record_nan(), (0, 2));
    let t = c.end_epoch(true);
    assert_eq!((t.epoch, t.steps, t.grad_steps, t.nan_count, t.plateau_counter), (0, 2, 1, 1, 0));
    assert_eq!(c.epoch, 1);
    assert_eq!((c.step_in_epoch, c.epoch_step_count, c.epoch_grad_count, c.epoch_nan_count), (0, 0, 0, 0));
    assert_eq!(c.total_nan_count, 1);
    // an epoch with steps and no better loss counts towards a plateau; an empty one does not
    c.record_step(false);
    assert_eq!(c.end_epoch(false).plateau_counter, 1);
    assert_eq!(c.end_epoch(false).plateau_counter, 1);
    assert_eq!(c.epoch, 3);
    // right after a reassignment only the loss fires another one
    c.mark_reassigned();
    assert_eq!(c.last_reassign_epoch, 3);
    assert!(!c.reassign_due(3, 5, false));
    assert!(c.reassign_due(3, 5, true));
    // a plateau fires it
    assert!(c.reassign_due(3, 1, false));
    for _ in 0..3 {
        c.end_epoch(false);
    }
    // three epochs since the last one fire it
    assert!(c.reassign_due(3, 5, false));
}

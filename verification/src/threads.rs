use vstd::prelude::*;

verus! {

pub open spec fn min_nat(a: int, b: int) -> int {
    if a <= b {
        a
    } else {
        b
    }
}

pub open spec fn max_nat(a: int, b: int) -> int {
    if a >= b {
        a
    } else {
        b
    }
}

/// Control threads: one per eight physical cores, at least one and at most
/// four, and never all of the threads.
pub open spec fn control_threads_for(total: int, physical_cores: int) -> int {
    min_nat(min_nat(max_nat(physical_cores / 8, 1), 4), total - 1)
}

/// Compute threads: the remaining threads, capped at half the physical
/// cores when a GPU takes part, and never fewer than one.
pub open spec fn compute_threads_for(total: int, has_gpu: bool, physical_cores: int) -> int {
    let control = control_threads_for(total, physical_cores);
    let rest = total - control;
    let capped = if has_gpu {
        min_nat(rest, physical_cores / 2)
    } else {
        rest
    };
    min_nat(max_nat(capped, 1), rest)
}

/// Splits the CPU threads of a plan into control and compute threads.
///
/// `physical_cores` is the parallelism the machine reports (the caller
/// passes `total_threads` when the machine does not report it).
pub fn split_cpu_threads(total_threads: usize, has_gpu: bool, physical_cores: usize) -> (r: (usize, usize))
    requires
        total_threads >= 2,
    ensures
        r.0 == control_threads_for(total_threads as int, physical_cores as int),
        r.1 == compute_threads_for(total_threads as int, has_gpu, physical_cores as int),
        r.0 >= 1,
        r.1 >= 1,
        r.0 <= 4,
        r.0 + r.1 <= total_threads,
{
    let base = physical_cores / 8;
    let mut control: usize = if base > 1 {
        base
    } else {
        1
    };
    if control > 4 {
        control = 4;
    }
    if control > total_threads - 1 {
        control = total_threads - 1;
    }
    let mut compute = total_threads - control;
    if has_gpu {
        let half = physical_cores / 2;
        if half < compute {
            compute = half;
        }
    }
    if compute < 1 {
        compute = 1;
    }
    if compute > total_threads - control {
        compute = total_threads - control;
    }
    (control, compute)
}

} // verus!

use vstd::prelude::*;

verus! {

/// Executor that runs every task synchronously on a dedicated GPU worker.
#[derive(Clone, Copy)]
pub struct GpuExecutor;

/// The chunk assignment of a single worker: one chunk covering all tasks,
/// or one empty list when there is no task.
pub open spec fn single_worker_plan(total_tasks: usize) -> Seq<Seq<(usize, usize)>> {
    if total_tasks == 0 {
        seq![Seq::empty()]
    } else {
        seq![seq![(0usize, total_tasks)]]
    }
}

impl GpuExecutor {
    pub fn new() -> (r: Self) {
        GpuExecutor
    }

    /// The GPU executor has exactly one worker.
    pub fn num_workers(&self) -> (r: usize)
        ensures
            r == 1,
    {
        1
    }

    /// Tasks run synchronously, so there is nothing to wait for.
    pub fn wait_all(&self) {
    }

    /// Assigns `total_tasks` tasks to the single worker as chunks `(start, len)`.
    pub fn plan_chunks_assignment(&self, total_tasks: usize) -> (r: Vec<Vec<(usize, usize)>>)
        ensures
            r@.len() == 1,
            r@[0]@ == single_worker_plan(total_tasks)[0],
    {
        let mut chunk: Vec<(usize, usize)> = Vec::new();
        if total_tasks != 0 {
            chunk.push((0, total_tasks));
        }
        let mut r: Vec<Vec<(usize, usize)>> = Vec::new();
        r.push(chunk);
        proof {
            if total_tasks == 0 {
                assert(r@[0]@ =~= Seq::<(usize, usize)>::empty());
            } else {
                assert(r@[0]@ =~= seq![(0usize, total_tasks)]);
            }
        }
        r
    }
}

/// The chunks of one worker cover the tasks `0..total` exactly once, in order.
pub open spec fn covers(chunks: Seq<(usize, usize)>, total: nat) -> bool {
    &&& forall|i: int| 0 <= i < chunks.len() ==> (#[trigger] chunks[i]).1 > 0
    &&& chunks.len() == 0 <==> total == 0
    &&& chunks.len() > 0 ==> chunks[0].0 == 0 && chunks.last().0 + chunks.last().1 == total
    &&& forall|i: int| 0 <= i < chunks.len() - 1 ==> (#[trigger] chunks[i]).0 + chunks[i].1 == chunks[i + 1].0
}

/// The single worker's plan covers every task exactly once.
pub proof fn law_single_worker_plan_covers(total_tasks: usize)
    ensures
        covers(single_worker_plan(total_tasks)[0], total_tasks as nat),
{
}

} // verus!

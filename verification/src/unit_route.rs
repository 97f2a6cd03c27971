use vstd::prelude::*;
use crate::context::{ContextSpec, DynamicContext, contexts_view, copy_contexts};
use crate::device_plan::ComputeDevice;
use std::collections::HashMap;

verus! {

/// How a universal unit of a mixed model runs one of its streams.
#[derive(Clone, Copy, PartialEq, Eq, Structural, Debug)]
pub enum UnitRoute {
    /// Through the device kernels of its GPU.
    Gpu,
    /// On the CPU, its rows split over the workers.
    Parallel,
    /// On the CPU, in order on the calling thread.
    Sequential,
}

/// The route of a stream: the GPU when the unit is placed on one; else the
/// workers when the unit's layers can be split by rows, the batch has more
/// than one row and there is more than one worker; else the calling thread.
pub open spec fn route_of(device: ComputeDevice, can_parallelize: bool, rows: usize, workers: usize) -> UnitRoute {
    if device is Gpu {
        UnitRoute::Gpu
    } else if can_parallelize && rows > 1 && workers > 1 {
        UnitRoute::Parallel
    } else {
        UnitRoute::Sequential
    }
}

/// Chooses how a universal unit placed on `device` runs a stream of `rows`
/// rows, given whether its layers can be split by rows and the number of
/// workers.
pub fn unit_route(device: ComputeDevice, can_parallelize: bool, rows: usize, workers: usize) -> (r: UnitRoute)
    ensures
        r == route_of(device, can_parallelize, rows, workers),
{
    match device {
        ComputeDevice::Gpu { .. } => UnitRoute::Gpu,
        ComputeDevice::Cpu { .. } => if can_parallelize && rows > 1 && workers > 1 {
            UnitRoute::Parallel
        } else {
            UnitRoute::Sequential
        },
    }
}

/// The model of a list of context chunks.
pub open spec fn chunk_list_view(v: Seq<Vec<DynamicContext>>) -> Seq<Seq<ContextSpec>> {
    v.map_values(|c: Vec<DynamicContext>| contexts_view(c@))
}

/// The contexts a forward pass of a mixed model keeps: by unit index, the
/// chunks of that unit's last forward pass, and the chunks of every unit in
/// the order they were produced.
pub struct ContextRecord {
    pub last: HashMap<usize, Vec<Vec<DynamicContext>>>,
    pub all: Vec<Vec<DynamicContext>>,
}

/// The model of a context record.
pub struct ContextRecordSpec {
    pub last: Map<usize, Seq<Seq<ContextSpec>>>,
    pub all: Seq<Seq<ContextSpec>>,
}

impl View for ContextRecord {
    type V = ContextRecordSpec;

    open spec fn view(&self) -> ContextRecordSpec {
        ContextRecordSpec {
            last: self.last@.map_values(|c: Vec<Vec<DynamicContext>>| chunk_list_view(c@)),
            all: chunk_list_view(self.all@),
        }
    }
}

impl ContextRecord {
    /// An empty record.
    pub fn new() -> (r: Self)
        ensures
            r@.last == Map::<usize, Seq<Seq<ContextSpec>>>::empty(),
            r@.all == Seq::<Seq<ContextSpec>>::empty(),
    {
        let r = ContextRecord { last: HashMap::new(), all: Vec::new() };
        assert(r@.last =~= Map::<usize, Seq<Seq<ContextSpec>>>::empty());
        assert(r@.all =~= Seq::<Seq<ContextSpec>>::empty());
        r
    }

    /// Records the chunks a forward pass of unit `k` produced: they become the
    /// unit's last contexts and are appended to the list of all contexts.
    pub fn record(&mut self, k: usize, chunks: Vec<Vec<DynamicContext>>)
        ensures
            final(self)@.last == old(self)@.last.insert(k, chunk_list_view(chunks@)),
            final(self)@.all == old(self)@.all + chunk_list_view(chunks@),
    {
        broadcast use vstd::std_specs::hash::group_hash_axioms;

        let ghost old_all = self.all@;
        let ghost old_last = self@.last;
        let mut i: usize = 0;
        while i < chunks.len()
            invariant
                i <= chunks.len(),
                chunk_list_view(self.all@) == chunk_list_view(old_all) + chunk_list_view(chunks@.take(i as int)),
                self@.last == old_last,
            decreases chunks.len() - i,
        {
            let ghost before = self.all@;
            self.all.push(copy_contexts(&chunks[i]));
            proof {
                assert(chunks@.take(i + 1) =~= chunks@.take(i as int).push(chunks@[i as int]));
                assert(chunk_list_view(self.all@) =~= chunk_list_view(before).push(contexts_view(chunks@[i as int]@)));
                assert(chunk_list_view(chunks@.take(i + 1)) =~= chunk_list_view(chunks@.take(i as int)).push(
                    contexts_view(chunks@[i as int]@),
                ));
            }
            i = i + 1;
        }
        proof {
            assert(chunks@.take(i as int) =~= chunks@);
        }
        let ghost before_last = self.last@;
        let ghost view_chunks = chunk_list_view(chunks@);
        self.last.insert(k, chunks);
        proof {
            assert(self@.last =~= old_last.insert(k, view_chunks));
        }
    }
}

} // verus!

use vstd::prelude::*;
use crate::buffer::{DeviceId, MemoryDeviceKind};

verus! {

/// A device that runs computations.
#[derive(Clone, Copy, PartialEq, Eq, Structural, Debug)]
pub enum ComputeDevice {
    Cpu { id: usize, threads: usize },
    Gpu { id: usize },
}

/// A memory budget granted to the model.
#[derive(Clone, Copy, PartialEq, Eq, Structural, Debug)]
pub struct MemoryBudget {
    pub id: usize,
    pub kind: MemoryDeviceKind,
    pub megabytes: usize,
}

/// The devices and memories a model may use.
pub struct DevicePlan {
    pub compute_devices: Vec<ComputeDevice>,
    pub memories: Vec<MemoryBudget>,
}

/// Number of CPU threads a list of devices offers (saturating at the word size).
pub open spec fn cpu_threads_of(d: Seq<ComputeDevice>) -> nat
    decreases d.len(),
{
    if d.len() == 0 {
        0
    } else {
        let rest = cpu_threads_of(d.drop_last());
        let t = match d.last() {
            ComputeDevice::Cpu { threads, .. } => threads as nat,
            ComputeDevice::Gpu { .. } => 0,
        };
        if rest + t > usize::MAX {
            usize::MAX as nat
        } else {
            rest + t
        }
    }
}

/// True when a list of devices holds a GPU.
pub open spec fn has_gpu_in(d: Seq<ComputeDevice>) -> bool {
    exists|i: int| 0 <= i < d.len() && d[i] is Gpu
}

impl DevicePlan {
    /// A plan with no device and no memory.
    pub fn empty() -> (r: Self)
        ensures
            r.compute_devices@ == Seq::<ComputeDevice>::empty(),
            r.memories@ == Seq::<MemoryBudget>::empty(),
    {
        DevicePlan { compute_devices: Vec::new(), memories: Vec::new() }
    }

    /// Adds a CPU with the given number of threads.
    pub fn cpu(self, id: usize, threads: usize) -> (r: Self)
        ensures
            r.compute_devices@ == self.compute_devices@.push(ComputeDevice::Cpu { id, threads }),
            r.memories@ == self.memories@,
    {
        let mut s = self;
        s.compute_devices.push(ComputeDevice::Cpu { id, threads });
        s
    }

    /// Adds a GPU.
    pub fn gpu(self, id: usize) -> (r: Self)
        ensures
            r.compute_devices@ == self.compute_devices@.push(ComputeDevice::Gpu { id }),
            r.memories@ == self.memories@,
    {
        let mut s = self;
        s.compute_devices.push(ComputeDevice::Gpu { id });
        s
    }

    /// Grants host RAM.
    pub fn ram(self, id: usize, megabytes: usize) -> (r: Self)
        ensures
            r.compute_devices@ == self.compute_devices@,
            r.memories@ == self.memories@.push(
                MemoryBudget { id, kind: MemoryDeviceKind::HostRam, megabytes },
            ),
    {
        let mut s = self;
        s.memories.push(MemoryBudget { id, kind: MemoryDeviceKind::HostRam, megabytes });
        s
    }

    /// Grants video memory of a GPU.
    pub fn vram(self, id: usize, gpu_id: usize, megabytes: usize) -> (r: Self)
        ensures
            r.compute_devices@ == self.compute_devices@,
            r.memories@ == self.memories@.push(
                MemoryBudget { id, kind: MemoryDeviceKind::DeviceVram(DeviceId(gpu_id)), megabytes },
            ),
    {
        let mut s = self;
        s.memories.push(
            MemoryBudget { id, kind: MemoryDeviceKind::DeviceVram(DeviceId(gpu_id)), megabytes },
        );
        s
    }

    /// Number of CPU threads the plan offers.
    pub fn cpu_threads(&self) -> (r: usize)
        ensures
            r == cpu_threads_of(self.compute_devices@),
    {
        let mut total: usize = 0;
        let mut i: usize = 0;
        while i < self.compute_devices.len()
            invariant
                i <= self.compute_devices@.len(),
                total == cpu_threads_of(self.compute_devices@.take(i as int)),
            decreases self.compute_devices@.len() - i,
        {
            assert(self.compute_devices@.take(i + 1).drop_last() =~= self.compute_devices@.take(
                i as int,
            ));
            match self.compute_devices[i] {
                ComputeDevice::Cpu { threads, .. } => {
                    total = if threads > usize::MAX - total {
                        usize::MAX
                    } else {
                        total + threads
                    };
                },
                ComputeDevice::Gpu { .. } => {},
            }
            i = i + 1;
        }
        assert(self.compute_devices@.take(i as int) =~= self.compute_devices@);
        total
    }

    /// True when the plan holds a GPU.
    pub fn has_gpu(&self) -> (r: bool)
        ensures
            r == has_gpu_in(self.compute_devices@),
    {
        let mut i: usize = 0;
        while i < self.compute_devices.len()
            invariant
                i <= self.compute_devices@.len(),
                forall|j: int| 0 <= j < i ==> !(self.compute_devices@[j] is Gpu),
            decreases self.compute_devices@.len() - i,
        {
            match self.compute_devices[i] {
                ComputeDevice::Gpu { .. } => {
                    return true;
                },
                ComputeDevice::Cpu { .. } => {},
            }
            i = i + 1;
        }
        false
    }
}

} // verus!

use vstd::prelude::*;

verus! {

/// The type of a physical device, as the Vulkan driver reports it.
#[derive(Clone, Copy, PartialEq, Eq, Structural, Debug)]
pub enum GpuDeviceType {
    Other,
    IntegratedGpu,
    DiscreteGpu,
    VirtualGpu,
    Cpu,
}

/// What the user learns of a GPU.
pub struct GpuInfo {
    pub name: String,
    /// Approximate video memory, in megabytes.
    pub memory_mb: u64,
    pub device_type: GpuDeviceType,
}

/// A memory heap of a physical device.
#[derive(Clone, Copy, PartialEq, Eq, Structural, Debug)]
pub struct MemoryHeap {
    pub size: u64,
    pub device_local: bool,
}

/// Total size of the device-local heaps.
pub open spec fn device_local_bytes(heaps: Seq<MemoryHeap>) -> nat
    decreases heaps.len(),
{
    if heaps.len() == 0 {
        0
    } else {
        device_local_bytes(heaps.drop_last()) + if heaps.last().device_local {
            heaps.last().size as nat
        } else {
            0
        }
    }
}

proof fn lemma_device_local_prefix(heaps: Seq<MemoryHeap>, i: int)
    requires
        0 <= i <= heaps.len(),
    ensures
        device_local_bytes(heaps.take(i)) <= device_local_bytes(heaps),
    decreases heaps.len() - i,
{
    if i < heaps.len() {
        lemma_device_local_prefix(heaps, i + 1);
        assert(heaps.take(i + 1).drop_last() =~= heaps.take(i));
    } else {
        assert(heaps.take(i) =~= heaps);
    }
}

/// Video memory of a device in megabytes: the device-local heaps, summed
/// and divided by 1024 * 1024; `None` when their total does not fit in 64 bits.
pub fn device_local_memory_mb(heaps: &Vec<MemoryHeap>) -> (r: Option<u64>)
    ensures
        r == if device_local_bytes(heaps@) <= u64::MAX {
            Some((device_local_bytes(heaps@) / (1024 * 1024)) as u64)
        } else {
            None::<u64>
        },
{
    let mut total: u64 = 0;
    let mut i: usize = 0;
    while i < heaps.len()
        invariant
            i <= heaps@.len(),
            total == device_local_bytes(heaps@.take(i as int)),
        decreases heaps@.len() - i,
    {
        proof {
            assert(heaps@.take(i + 1).drop_last() =~= heaps@.take(i as int));
        }
        if heaps[i].device_local {
            match total.checked_add(heaps[i].size) {
                Some(t) => {
                    total = t;
                },
                None => {
                    proof {
                        lemma_device_local_prefix(heaps@, i + 1);
                    }
                    return None;
                },
            }
        }
        i = i + 1;
    }
    assert(heaps@.take(i as int) =~= heaps@);
    Some(total / (1024 * 1024))
}

/// Names of the detected GPUs, in enumeration order; `None` when Vulkan is unavailable.
pub fn detect_gpus(enumerated: Option<Vec<GpuInfo>>) -> (r: Option<Vec<String>>)
    ensures
        r is Some <==> enumerated is Some,
        r matches Some(names) ==> names@.map_values(|s: String| s@) == enumerated->0@.map_values(
            |g: GpuInfo| g.name@,
        ),
{
    match enumerated {
        None => None,
        Some(gpus) => {
            let mut names: Vec<String> = Vec::new();
            let mut rest = gpus;
            let ghost all = rest@;
            while rest.len() > 0
                invariant
                    rest@ == all.skip(names@.len() as int),
                    names@.len() <= all.len(),
                    forall|j: int| 0 <= j < names@.len() ==> (#[trigger] names@[j])@ == all[j].name@,
                decreases rest@.len(),
            {
                let g = rest.remove(0);
                proof {
                    assert(g == all[names@.len() as int]);
                    assert(rest@ =~= all.skip(names@.len() as int + 1));
                }
                names.push(g.name);
            }
            proof {
                assert(names@.map_values(|s: String| s@) =~= all.map_values(|g: GpuInfo| g.name@));
            }
            Some(names)
        },
    }
}

/// The first queue family that supports compute work, as the driver numbers it.
pub fn compute_queue_family(compute_flags: &Vec<bool>) -> (r: Option<u32>)
    ensures
        match r {
            Some(i) => exists|k: int|
                0 <= k < compute_flags@.len() && compute_flags@[k] && (forall|j: int|
                    0 <= j < k ==> !compute_flags@[j]) && i == k as u32,
            None => forall|j: int| 0 <= j < compute_flags@.len() ==> !compute_flags@[j],
        },
{
    let mut i: usize = 0;
    while i < compute_flags.len()
        invariant
            i <= compute_flags@.len(),
            forall|j: int| 0 <= j < i ==> !compute_flags@[j],
        decreases compute_flags@.len() - i,
    {
        if compute_flags[i] {
            return Some(i as u32);
        }
        i = i + 1;
    }
    None
}

} // verus!

use vstd::prelude::*;
use crate::buffer::{MatrixBufferHandle, MemoryDeviceKind};

verus! {

/// A contiguous range of parameters of one layer inside a parameter buffer.
#[derive(Clone, Copy, PartialEq, Eq, Structural, Debug)]
pub struct ParamSlice {
    pub buffer_idx: usize,
    pub start: usize,
    pub len: usize,
}

impl ParamSlice {
    pub fn new(buffer_idx: usize, start: usize, len: usize) -> (r: Self)
        ensures
            r == (ParamSlice { buffer_idx, start, len }),
    {
        ParamSlice { buffer_idx, start, len }
    }

    /// One past the last parameter of the slice.
    pub fn end(&self) -> (r: usize)
        requires
            self.start + self.len <= usize::MAX,
        ensures
            r == self.start + self.len,
    {
        self.start + self.len
    }
}

/// One parameter buffer: the parameters of a segment, their gradients,
/// the optional optimizer state and the memory they live in.
#[derive(Clone, Copy, PartialEq, Eq, Structural, Debug)]
pub struct ParamBuffer {
    pub params: MatrixBufferHandle,
    pub grads: MatrixBufferHandle,
    pub opt_state: Option<MatrixBufferHandle>,
    pub location: MemoryDeviceKind,
    pub len: usize,
}

/// The mathematical model of a parameter store.
pub struct StoreSpec {
    pub buffers: Seq<ParamBuffer>,
    pub next_id: u64,
}

/// Total number of parameters held by a list of buffers.
pub open spec fn total_len(bufs: Seq<ParamBuffer>) -> nat
    decreases bufs.len(),
{
    if bufs.len() == 0 {
        0
    } else {
        total_len(bufs.drop_last()) + bufs.last().len as nat
    }
}

/// Sum of a list of sizes.
pub open spec fn sum_sizes(s: Seq<usize>) -> nat
    decreases s.len(),
{
    if s.len() == 0 {
        0
    } else {
        sum_sizes(s.drop_last()) + s.last() as nat
    }
}

/// Offset of the `i`-th size when the sizes are laid out one after another.
pub open spec fn offset_of(s: Seq<usize>, i: int) -> nat {
    sum_sizes(s.take(i))
}

/// True when a segment of the given sizes fits into the store.
pub open spec fn alloc_fits(st: StoreSpec, sizes: Seq<usize>) -> bool {
    &&& total_len(st.buffers) + sum_sizes(sizes) <= usize::MAX
    &&& st.next_id <= u64::MAX - 2
}

/// The buffer created for a segment of the given sizes.
pub open spec fn new_buffer(st: StoreSpec, sizes: Seq<usize>, kind: MemoryDeviceKind) -> ParamBuffer {
    let n = sum_sizes(sizes) as usize;
    ParamBuffer {
        params: MatrixBufferHandle { id: st.next_id, rows: n, cols: 1, location: kind },
        grads: MatrixBufferHandle { id: (st.next_id + 1) as u64, rows: n, cols: 1, location: kind },
        opt_state: None,
        location: kind,
        len: n,
    }
}

/// The slices handed out for a segment of the given sizes placed in buffer `idx`.
pub open spec fn segment_slices(sizes: Seq<usize>, idx: usize) -> Seq<ParamSlice> {
    Seq::new(
        sizes.len(),
        |i: int| ParamSlice { buffer_idx: idx, start: offset_of(sizes, i) as usize, len: sizes[i] },
    )
}

/// Effect of `allocate_segment` on the store: the new store and the slices.
/// When the segment does not fit, nothing is allocated and no slice is returned.
pub open spec fn alloc_spec(st: StoreSpec, sizes: Seq<usize>, kind: MemoryDeviceKind) -> (
    StoreSpec,
    Seq<ParamSlice>,
) {
    if alloc_fits(st, sizes) {
        (
            StoreSpec {
                buffers: st.buffers.push(new_buffer(st, sizes, kind)),
                next_id: (st.next_id + 2) as u64,
            },
            segment_slices(sizes, st.buffers.len() as usize),
        )
    } else {
        (st, Seq::empty())
    }
}

pub proof fn lemma_sum_prefix_monotone(s: Seq<usize>, i: int, j: int)
    requires
        0 <= i <= j <= s.len(),
    ensures
        sum_sizes(s.take(i)) <= sum_sizes(s.take(j)),
    decreases j - i,
{
    if i < j {
        lemma_sum_prefix_monotone(s, i, j - 1);
        assert(s.take(j).drop_last() =~= s.take(j - 1));
    }
}

/// Storage of all learnable parameters of a graph.
pub struct ParamStore {
    buffers: Vec<ParamBuffer>,
    total: usize,
    next_id: u64,
}

impl View for ParamStore {
    type V = StoreSpec;

    closed spec fn view(&self) -> StoreSpec {
        StoreSpec { buffers: self.buffers@, next_id: self.next_id }
    }
}

impl ParamStore {
    /// Internal consistency of the store: the cached total is the sum of the buffer sizes.
    pub closed spec fn wf(&self) -> bool {
        &&& self.total as nat == total_len(self.buffers@)
    }

    pub fn new() -> (r: Self)
        ensures
            r.wf(),
            r@.buffers == Seq::<ParamBuffer>::empty(),
            r@.next_id == 0,
    {
        ParamStore { buffers: Vec::new(), total: 0, next_id: 0 }
    }

    pub fn num_buffers(&self) -> (r: usize)
        ensures
            r == self@.buffers.len(),
    {
        self.buffers.len()
    }

    /// Total number of parameters over all buffers.
    pub fn total_params(&self) -> (r: usize)
        requires
            self.wf(),
        ensures
            r == total_len(self@.buffers),
    {
        self.total
    }

    /// Allocates one buffer holding consecutive slices of the given sizes.
    pub fn allocate_segment(&mut self, sizes: &Vec<usize>, kind: MemoryDeviceKind) -> (r: Vec<
        ParamSlice,
    >)
        requires
            old(self).wf(),
        ensures
            final(self).wf(),
            (final(self)@, r@) == alloc_spec(old(self)@, sizes@, kind),
    {
        let ghost st = self@;
        if self.next_id > u64::MAX - 2 {
            return Vec::new();
        }
        let mut slices: Vec<ParamSlice> = Vec::new();
        let mut acc: usize = 0;
        let idx = self.buffers.len();
        let mut i: usize = 0;
        while i < sizes.len()
            invariant
                i <= sizes.len(),
                acc as nat == sum_sizes(sizes@.take(i as int)),
                self.total as nat + acc <= usize::MAX,
                idx == self.buffers.len(),
                slices@ =~= segment_slices(sizes@.take(i as int), idx),
                self@ == st,
                self.wf(),
            decreases sizes.len() - i,
        {
            let sz = sizes[i];
            assert(sizes@.take(i + 1).drop_last() =~= sizes@.take(i as int));
            if sz > usize::MAX - self.total || acc > usize::MAX - self.total - sz {
                proof {
                    lemma_sum_prefix_monotone(sizes@, i + 1, sizes@.len() as int);
                    assert(sizes@.take(sizes@.len() as int) =~= sizes@);
                }
                return Vec::new();
            }
            proof {
                assert forall|k: int| 0 <= k < i implies sizes@.take(i + 1).take(k)
                    =~= sizes@.take(i as int).take(k) by {}
                assert(sizes@.take(i + 1).take(i as int) =~= sizes@.take(i as int));
            }
            slices.push(ParamSlice { buffer_idx: idx, start: acc, len: sz });
            acc = acc + sz;
            i = i + 1;
        }
        assert(sizes@.take(sizes@.len() as int) =~= sizes@);
        let params = MatrixBufferHandle { id: self.next_id, rows: acc, cols: 1, location: kind };
        let grads = MatrixBufferHandle { id: self.next_id + 1, rows: acc, cols: 1, location: kind };
        self.buffers.push(ParamBuffer { params, grads, opt_state: None, location: kind, len: acc });
        self.total = self.total + acc;
        self.next_id = self.next_id + 2;
        proof {
            assert(self.buffers@.drop_last() =~= st.buffers);
        }
        slices
    }

    /// The buffer a slice points into.
    pub fn get_param_buffer(&self, slice: &ParamSlice) -> (r: &ParamBuffer)
        requires
            slice.buffer_idx < self@.buffers.len(),
        ensures
            *r == self@.buffers[slice.buffer_idx as int],
    {
        &self.buffers[slice.buffer_idx]
    }

    pub fn get_param_buffer_by_idx(&self, idx: usize) -> (r: &ParamBuffer)
        requires
            idx < self@.buffers.len(),
        ensures
            *r == self@.buffers[idx as int],
    {
        &self.buffers[idx]
    }

    /// Handle of the parameter buffer a slice points into.
    pub fn params_handle(&self, slice: &ParamSlice) -> (r: MatrixBufferHandle)
        requires
            slice.buffer_idx < self@.buffers.len(),
        ensures
            r == self@.buffers[slice.buffer_idx as int].params,
    {
        self.buffers[slice.buffer_idx].params
    }

    /// Handle of the gradient buffer a slice points into.
    pub fn grads_handle(&self, slice: &ParamSlice) -> (r: MatrixBufferHandle)
        requires
            slice.buffer_idx < self@.buffers.len(),
        ensures
            r == self@.buffers[slice.buffer_idx as int].grads,
    {
        self.buffers[slice.buffer_idx].grads
    }
}


/// A buffer after it moved to another memory: its handles live there too.
pub open spec fn moved_buffer(b: ParamBuffer, target: MemoryDeviceKind) -> ParamBuffer {
    ParamBuffer {
        params: MatrixBufferHandle { location: target, ..b.params },
        grads: MatrixBufferHandle { location: target, ..b.grads },
        opt_state: match b.opt_state {
            Some(h) => Some(MatrixBufferHandle { location: target, ..h }),
            None => None,
        },
        location: target,
        len: b.len,
    }
}

proof fn lemma_total_len_update(b: Seq<ParamBuffer>, i: int, x: ParamBuffer)
    requires
        0 <= i < b.len(),
        x.len == b[i].len,
    ensures
        total_len(b.update(i, x)) == total_len(b),
    decreases b.len(),
{
    if i < b.len() - 1 {
        assert(b.update(i, x).drop_last() =~= b.drop_last().update(i, x));
        lemma_total_len_update(b.drop_last(), i, x);
    } else {
        assert(b.update(i, x).drop_last() =~= b.drop_last());
    }
}

impl ParamStore {
    /// Records that buffer `idx` now lives in `target`.
    pub fn move_buffer(&mut self, idx: usize, target: MemoryDeviceKind)
        requires
            old(self).wf(),
            idx < old(self)@.buffers.len(),
        ensures
            final(self).wf(),
            final(self)@.buffers == old(self)@.buffers.update(
                idx as int,
                moved_buffer(old(self)@.buffers[idx as int], target),
            ),
            final(self)@.next_id == old(self)@.next_id,
    {
        let b = self.buffers[idx];
        let nb = ParamBuffer {
            params: MatrixBufferHandle { location: target, ..b.params },
            grads: MatrixBufferHandle { location: target, ..b.grads },
            opt_state: match b.opt_state {
                Some(h) => Some(MatrixBufferHandle { location: target, ..h }),
                None => None,
            },
            location: target,
            len: b.len,
        };
        proof {
            lemma_total_len_update(self.buffers@, idx as int, nb);
        }
        self.buffers.set(idx, nb);
    }
}

/// How one flat vector of values is cut over the parameter buffers:
/// `(buffer index, offset, length)` for every non-empty buffer, in buffer order,
/// each buffer taking the values that follow those of the buffers before it.
pub open spec fn flat_ranges_of(bufs: Seq<ParamBuffer>) -> Seq<(usize, usize, usize)>
    decreases bufs.len(),
{
    if bufs.len() == 0 {
        Seq::empty()
    } else {
        let prev = flat_ranges_of(bufs.drop_last());
        if bufs.last().len == 0 {
            prev
        } else {
            prev.push(((bufs.len() - 1) as usize, total_len(bufs.drop_last()) as usize, bufs.last().len))
        }
    }
}

proof fn lemma_total_len_prefix(b: Seq<ParamBuffer>, i: int)
    requires
        0 <= i <= b.len(),
    ensures
        total_len(b.take(i)) <= total_len(b),
    decreases b.len() - i,
{
    if i < b.len() {
        lemma_total_len_prefix(b, i + 1);
        assert(b.take(i + 1).drop_last() =~= b.take(i));
    } else {
        assert(b.take(i) =~= b);
    }
}

/// The ranges tile the flat vector: they start at zero, each
/// begins where the one before it ends, and the last ends at the total
/// parameter count (which is zero when there is no range).
pub proof fn law_flat_ranges_tile(bufs: Seq<ParamBuffer>)
    requires
        total_len(bufs) <= usize::MAX,
    ensures
        ({
            let r = flat_ranges_of(bufs);
            &&& r.len() == 0 ==> total_len(bufs) == 0
            &&& r.len() > 0 ==> r[0].1 == 0 && r.last().1 + r.last().2 == total_len(bufs)
            &&& forall|i: int| 0 <= i < r.len() - 1 ==> #[trigger] r[i].1 + r[i].2 == r[i + 1].1
        }),
    decreases bufs.len(),
{
    if bufs.len() > 0 {
        let d = bufs.drop_last();
        assert(total_len(bufs) == total_len(d) + bufs.last().len);
        law_flat_ranges_tile(d);
        let prev = flat_ranges_of(d);
        let r = flat_ranges_of(bufs);
        if bufs.last().len != 0 {
            assert(r == prev.push(((bufs.len() - 1) as usize, total_len(d) as usize, bufs.last().len)));
            assert forall|i: int| 0 <= i < r.len() - 1 implies #[trigger] r[i].1 + r[i].2 == r[i + 1].1 by {
                if i < prev.len() - 1 {
                    assert(r[i] == prev[i] && r[i + 1] == prev[i + 1]);
                } else {
                    assert(r[i] == prev.last());
                }
            }
        }
    }
}

impl ParamStore {
    /// How a flat vector of `total_params` values (initial values, or all
    /// gradients read back) is cut over the buffers.
    pub fn flat_ranges(&self) -> (r: Vec<(usize, usize, usize)>)
        requires
            self.wf(),
        ensures
            r@ == flat_ranges_of(self@.buffers),
    {
        let ghost bufs = self@.buffers;
        let n = self.num_buffers();
        let total = self.total_params();
        let mut ranges: Vec<(usize, usize, usize)> = Vec::new();
        let mut offset: usize = 0;
        let mut i: usize = 0;
        while i < n
            invariant
                i <= n,
                n == bufs.len(),
                bufs == self@.buffers,
                self.wf(),
                total == total_len(bufs),
                offset == total_len(bufs.take(i as int)),
                ranges@ == flat_ranges_of(bufs.take(i as int)),
            decreases n - i,
        {
            let b = self.get_param_buffer_by_idx(i);
            let len = b.len;
            proof {
                let t = bufs.take(i + 1);
                assert(t.drop_last() =~= bufs.take(i as int));
                assert(t.last() == bufs[i as int]);
                lemma_total_len_prefix(bufs, i + 1);
            }
            if len != 0 {
                ranges.push((i, offset, len));
            }
            offset = offset + len;
            i = i + 1;
        }
        proof {
            assert(bufs.take(n as int) =~= bufs);
        }
        ranges
    }

}

} // verus!

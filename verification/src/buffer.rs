use vstd::prelude::*;

verus! {

/// Identifier of a compute device that owns video memory.
#[derive(Clone, Copy, PartialEq, Eq, Structural, Debug)]
pub struct DeviceId(pub usize);

/// Where a matrix buffer physically lives.
#[derive(Clone, Copy, PartialEq, Eq, Structural, Debug)]
pub enum MemoryDeviceKind {
    HostRam,
    DeviceVram(DeviceId),
}

/// A handle to a column-major matrix buffer held by the memory executor.
///
/// The handle carries the plain facts the graph logic reads from a buffer:
/// its identity, its shape and the memory it lives in.
#[derive(Clone, Copy, PartialEq, Eq, Structural, Debug)]
pub struct MatrixBufferHandle {
    pub id: u64,
    pub rows: usize,
    pub cols: usize,
    pub location: MemoryDeviceKind,
}

impl MatrixBufferHandle {
    pub fn new(id: u64, rows: usize, cols: usize, location: MemoryDeviceKind) -> (r: Self)
        ensures
            r.id == id,
            r.rows == rows,
            r.cols == cols,
            r.location == location,
    {
        MatrixBufferHandle { id, rows, cols, location }
    }

    pub fn id(&self) -> (r: u64)
        ensures
            r == self.id,
    {
        self.id
    }

    pub fn rows(&self) -> (r: usize)
        ensures
            r == self.rows,
    {
        self.rows
    }

    pub fn cols(&self) -> (r: usize)
        ensures
            r == self.cols,
    {
        self.cols
    }

    /// A buffer is a GPU buffer exactly when it lives in device memory.
    pub fn is_gpu(&self) -> (r: bool)
        ensures
            r == (self.location is DeviceVram),
    {
        match self.location {
            MemoryDeviceKind::HostRam => false,
            MemoryDeviceKind::DeviceVram(_) => true,
        }
    }
}

} // verus!

//! Random-access byte sources.
use vstd::prelude::*;
use crate::error::FsError;

verus! {

/// A positioned, read-only byte source (a block device or an image file).
pub trait Device {
    /// Everything the medium holds, byte by byte.
    spec fn content(&self) -> Seq<u8>;

    /// Reads `len` bytes starting at byte `offset`.
    fn read_exact_at(&self, offset: u64, len: usize) -> (r: Result<Vec<u8>, FsError>)
        ensures
            r matches Err(e) ==> e == FsError::Io,
            r matches Ok(v) ==> offset + len <= self.content().len() && v@ == self.content().subrange(
                offset as int,
                offset + len,
            ),
    ;
}

/// A device held entirely in memory.
pub struct MemDevice {
    data: Vec<u8>,
}

impl MemDevice {
    pub fn new(data: Vec<u8>) -> (r: MemDevice)
        ensures
            r.content() == data@,
    {
        MemDevice { data }
    }
}

impl Device for MemDevice {
    closed spec fn content(&self) -> Seq<u8> {
        self.data@
    }

    fn read_exact_at(&self, offset: u64, len: usize) -> (r: Result<Vec<u8>, FsError>)
        ensures
            r matches Err(e) ==> e == FsError::Io,
            r matches Ok(v) ==> offset + len <= self.content().len() && v@ == self.content().subrange(
                offset as int,
                offset + len,
            ),
            offset + len <= self.content().len() ==> r is Ok,
    {
        let n = self.data.len();
        if offset > n as u64 || len > n - (offset as usize) {
            return Err(FsError::Io);
        }
        Ok(crate::codec::copy_bytes(self.data.as_slice(), offset as usize, len))
    }
}

} // verus!

//! The format-independent description of a file or directory.
use vstd::prelude::*;
use crate::time::Timestamp;

verus! {

/// The identity reserved for the root directory.
pub const ROOT_ID: u64 = 1;

/// The identity of the file whose primary directory entry lies in cluster `clus`
/// at entry index `off` of that cluster: `(clus << 32) | off`.
pub open spec fn entry_id(clus: u32, off: u32) -> u64 {
    (clus * 0x1_0000_0000 + off) as u64
}

pub fn make_id(clus: u32, off: u32) -> (r: u64)
    ensures
        r == entry_id(clus, off),
{
    (clus as u64) * 0x1_0000_0000 + (off as u64)
}

/// What the upper layers know of one file or directory.
#[derive(Debug, Clone)]
pub struct Finfo {
    pub id: u64,
    pub name: String,
    pub is_rdonly: bool,
    pub is_hidden: bool,
    pub is_system: bool,
    pub is_dir: bool,
    pub size: u64,
    pub fst_clus: u32,
    pub crt_time: Timestamp,
    pub wrt_time: Timestamp,
    pub acc_time: Timestamp,
}

impl Finfo {
    /// A copy of this record.
    pub fn duplicate(&self) -> (r: Finfo)
        ensures
            r == *self,
    {
        Finfo {
            id: self.id,
            name: self.name.clone(),
            is_rdonly: self.is_rdonly,
            is_hidden: self.is_hidden,
            is_system: self.is_system,
            is_dir: self.is_dir,
            size: self.size,
            fst_clus: self.fst_clus,
            crt_time: self.crt_time,
            wrt_time: self.wrt_time,
            acc_time: self.acc_time,
        }
    }
}

} // verus!

//! The master boot record: four partition entries and the boot signature.
use vstd::prelude::*;
use crate::codec::{le16, le32, read_u16, read_u32};

verus! {

/// One entry of the partition table.
#[derive(Debug, Clone, Copy)]
pub struct PartitionEntry {
    pub active: u8,
    pub first_sec: [u8; 3],
    pub typ: u8,
    pub last_sec: [u8; 3],
    pub lba: u32,
    pub nsecs: u32,
}

/// The partition table and signature of a master boot record.
#[derive(Debug, Clone, Copy)]
pub struct Mbr {
    pub partition_1: PartitionEntry,
    pub partition_2: PartitionEntry,
    pub partition_3: PartitionEntry,
    pub partition_4: PartitionEntry,
    pub boot_sig: u16,
}

/// `e` holds the 16-byte partition entry stored at `off` in `b`.
pub open spec fn entry_of(e: PartitionEntry, b: Seq<u8>, off: int) -> bool {
    &&& e.active == b[off]
    &&& e.first_sec@ == b.subrange(off + 1, off + 4)
    &&& e.typ == b[off + 4]
    &&& e.last_sec@ == b.subrange(off + 5, off + 8)
    &&& e.lba == le32(b, off + 8)
    &&& e.nsecs == le32(b, off + 12)
}

fn read_entry(buf: &[u8], off: usize) -> (r: PartitionEntry)
    requires
        off + 16 <= buf@.len(),
        off <= 494,
    ensures
        entry_of(r, buf@, off as int),
{
    let first_sec: [u8; 3] = [buf[off + 1], buf[off + 2], buf[off + 3]];
    let last_sec: [u8; 3] = [buf[off + 5], buf[off + 6], buf[off + 7]];
    assert(first_sec@ =~= buf@.subrange(off + 1, off + 4));
    assert(last_sec@ =~= buf@.subrange(off + 5, off + 8));
    PartitionEntry {
        active: buf[off],
        first_sec,
        typ: buf[off + 4],
        last_sec,
        lba: read_u32(buf, off + 8),
        nsecs: read_u32(buf, off + 12),
    }
}

impl Mbr {
    /// Decodes the first sector of a disk; fails on fewer than 512 bytes.
    pub fn new(buf: &[u8]) -> (r: Option<Mbr>)
        ensures
            buf@.len() < 512 <==> r is None,
            r matches Some(m) ==> entry_of(m.partition_1, buf@, 446) && entry_of(m.partition_2, buf@, 462)
                && entry_of(m.partition_3, buf@, 478) && entry_of(m.partition_4, buf@, 494)
                && m.boot_sig == le16(buf@, 510),
    {
        if buf.len() < 512 {
            return None;
        }
        Some(
            Mbr {
                partition_1: read_entry(buf, 446),
                partition_2: read_entry(buf, 462),
                partition_3: read_entry(buf, 478),
                partition_4: read_entry(buf, 494),
                boot_sig: read_u16(buf, 510),
            },
        )
    }
}

} // verus!

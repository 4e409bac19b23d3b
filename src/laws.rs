//! Laws that relate several reads of one volume.
use vstd::prelude::*;
use crate::volume::{FsType, Geometry, Link, chain, in_range, link_of, read_spec, read_len, exfat_scan, exfat_sets, gather, set_reduces};
use crate::exfat::{set_shape_ok, set_sum};
use crate::codec::le16;
use crate::fat32::{lfn_valid, record, run_sfn, sfn_checksum};

verus! {

/// Every cluster of a chain, the root directory's included, is a valid cluster
/// number, and a chain holds no more clusters than it was walked for.
pub proof fn lemma_chain_in_range(disk: Seq<u8>, g: Geometry, kind: FsType, c: u32, fuel: nat)
    requires
        chain(disk, g, kind, c, fuel) is Some,
    ensures
        forall|i: int|
            0 <= i < chain(disk, g, kind, c, fuel).unwrap().len() ==> in_range(
                g,
                #[trigger] chain(disk, g, kind, c, fuel).unwrap()[i] as int,
            ),
        chain(disk, g, kind, c, fuel).unwrap().len() <= fuel,
    decreases fuel,
{
    if fuel > 0 {
        if let Link::Next(n) = link_of(disk, g, kind, c as int) {
            lemma_chain_in_range(disk, g, kind, n, (fuel - 1) as nat);
            let s = chain(disk, g, kind, n, (fuel - 1) as nat).unwrap();
            assert forall|i: int|
                0 <= i < chain(disk, g, kind, c, fuel).unwrap().len() implies in_range(
                g,
                #[trigger] chain(disk, g, kind, c, fuel).unwrap()[i] as int,
            ) by {
                if i > 0 {
                    assert(chain(disk, g, kind, c, fuel).unwrap()[i] == s[i - 1]);
                }
            }
        }
    }
}

/// A read at an offset inside the file yields `min(len, size - off)` bytes.
pub proof fn lemma_read_len(
    disk: Seq<u8>,
    g: Geometry,
    kind: FsType,
    first: u32,
    size: u64,
    off: u32,
    len: u32,
)
    requires
        off < size,
        read_spec(disk, g, kind, first, size, off, len) is Some,
    ensures
        read_spec(disk, g, kind, first, size, off, len).unwrap().len() == if len < size - off {
            len as int
        } else {
            size - off
        },
{
}

/// Reading a whole file from its start, then from its end, yields exactly its
/// size in bytes: the second read is empty.
pub proof fn lemma_read_whole(
    disk: Seq<u8>,
    g: Geometry,
    kind: FsType,
    first: u32,
    size: u32,
    any: u32,
)
    requires
        read_spec(disk, g, kind, first, size as u64, 0, size) is Some,
    ensures
        read_spec(disk, g, kind, first, size as u64, size, any) == Some(Seq::<u8>::empty()),
        (read_spec(disk, g, kind, first, size as u64, 0, size).unwrap() + read_spec(
            disk,
            g,
            kind,
            first,
            size as u64,
            size,
            any,
        ).unwrap()).len() == size,
{
}

/// A read at `off` is the tail, from `off`, of the read from the start that ends
/// where it ends; where it asks for at least one byte, one of the two fails
/// exactly when the other does.
pub proof fn lemma_read_suffix(
    disk: Seq<u8>,
    g: Geometry,
    kind: FsType,
    first: u32,
    size: u64,
    off: u32,
    len: u32,
)
    requires
        g.wf(),
        off < size,
        off + len <= u32::MAX,
    ensures
        read_spec(disk, g, kind, first, size, 0, (off + len) as u32) matches Some(w) ==> read_spec(
            disk,
            g,
            kind,
            first,
            size,
            off,
            len,
        ) == Some(w.subrange(off as int, w.len() as int)),
        len > 0 ==> (read_spec(disk, g, kind, first, size, off, len) is None <==> read_spec(
            disk,
            g,
            kind,
            first,
            size,
            0,
            (off + len) as u32,
        ) is None),
{
    let n1 = read_len(size as int, off as int, len as int);
    let n2 = read_len(size as int, 0, off + len);
    assert(n2 == off + n1);
    if let Some(w) = read_spec(disk, g, kind, first, size, 0, (off + len) as u32) {
        if n1 > 0 {
            let v = read_spec(disk, g, kind, first, size, off, len).unwrap();
            assert(v =~= w.subrange(off as int, w.len() as int));
        } else {
            assert(w.subrange(off as int, w.len() as int) =~= Seq::<u8>::empty());
        }
    }
}

/// Where the fragments in front of a short entry make its long name, every one
/// of them carries the checksum computed from the 11-byte short name.
pub proof fn lemma_lfn_checksums(run: Seq<u8>)
    requires
        run.len() % 32 == 0,
        run.len() >= 64,
        lfn_valid(run, run.len() / 32 - 1, sfn_checksum(run_sfn(run).take(11))),
    ensures
        forall|i: int|
            0 <= i < run.len() / 32 - 1 ==> #[trigger] record(run, i)[13] == sfn_checksum(
                run_sfn(run).take(11),
            ),
{
    assert forall|i: int| 0 <= i < run.len() / 32 - 1 implies #[trigger] record(run, i)[13] == sfn_checksum(
        run_sfn(run).take(11),
    ) by {
        assert(record(run, i)[13] == run[32 * i + 13]);
    }
}

proof fn lemma_scan_sets_reduce(raw: Seq<u8>, t: nat)
    ensures
        forall|k: int|
            0 <= k < exfat_scan(raw, t).0.len() ==> set_reduces(gather(raw, #[trigger] exfat_scan(raw, t).0[k])),
    decreases t,
{
    if t > 0 {
        lemma_scan_sets_reduce(raw, (t - 1) as nat);
        let prev = exfat_scan(raw, (t - 1) as nat);
        let o = exfat_scan(raw, t).0;
        assert(o == prev.0 || o == crate::volume::exfat_flush(raw, prev.0, prev.1));
        assert forall|k: int| 0 <= k < o.len() implies set_reduces(gather(raw, #[trigger] o[k])) by {
            if k < prev.0.len() {
                assert(o[k] == prev.0[k]);
            }
        }
    }
}

/// Every entry set that an exFAT directory listing holds is well formed, and its
/// rotate-add checksum over all its bytes but 2 and 3 equals the checksum that its
/// file record stores.
pub proof fn lemma_listed_sets_checksum(raw: Seq<u8>)
    ensures
        forall|k: int|
            0 <= k < exfat_sets(raw).len() ==> {
                let set = gather(raw, #[trigger] exfat_sets(raw)[k]);
                set_shape_ok(set) && set_sum(set, set.len()) == le16(set, 2)
            },
{
    lemma_scan_sets_reduce(raw, (raw.len() / 32) as nat);
}

} // verus!

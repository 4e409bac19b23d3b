//! A mounted volume: its geometry, the FAT chain walker, cluster I/O, directory
//! listing and range reads, over a `Device`.
use vstd::prelude::*;
use vstd::arithmetic::div_mod::{lemma_fundamental_div_mod, lemma_fundamental_div_mod_converse_div, lemma_fundamental_div_mod_converse_mod};
use vstd::arithmetic::power2::pow2;
use crate::codec::{le32, read_u32};
use crate::device::Device;
use crate::error::FsError;
use crate::fat32;
use crate::exfat;

verus! {

/// The two on-disk formats the driver reads.
#[derive(Debug, Clone, Copy, PartialEq, Eq, Structural)]
pub enum FsType {
    Fat32,
    Exfat,
}

/// Volume geometry, fixed once the volume is open.
#[derive(Debug, Clone, Copy, PartialEq, Eq, Structural)]
pub struct Geometry {
    pub bytes_per_sector: u32,
    pub sectors_per_cluster: u32,
    pub bytes_per_cluster: u32,
    /// The first sector of the (first) FAT.
    pub fat_start_sector: u64,
    pub fat_length_sectors: u64,
    /// The byte offset of cluster 2.
    pub cluster_heap_start: u64,
    /// The highest valid cluster number is `cluster_count + 1`.
    pub cluster_count: u32,
    pub root_first_cluster: u32,
}

impl Geometry {
    pub open spec fn wf(&self) -> bool {
        &&& 512 <= self.bytes_per_sector <= 4096
        &&& self.bytes_per_sector % 4 == 0
        &&& self.sectors_per_cluster >= 1
        &&& self.bytes_per_cluster == self.bytes_per_sector * self.sectors_per_cluster
        &&& self.bytes_per_sector <= self.bytes_per_cluster <= 0x200_0000
        &&& self.bytes_per_cluster % 32 == 0
        &&& 1 <= self.cluster_count <= 0xFFFF_FFF5
        &&& self.fat_start_sector <= 0xFFFF_FFFF
        &&& self.cluster_heap_start <= 0xFFFF_FFFF * 4096
    }
}

impl Geometry {
    /// A geometry from its parts, where they are in range.
    pub fn checked(
        bps: u32,
        spc: u32,
        fat_start: u64,
        fat_len: u64,
        heap: u64,
        count: u64,
        root: u32,
    ) -> (r: Option<Geometry>)
        ensures
            r matches Some(g) ==> g.wf() && g.bytes_per_sector == bps && g.sectors_per_cluster == spc
                && g.fat_start_sector == fat_start && g.fat_length_sectors == fat_len
                && g.cluster_heap_start == heap && g.cluster_count == count
                && g.root_first_cluster == root,
            r is None <==> !(512 <= bps <= 4096 && bps % 4 == 0 && spc >= 1 && bps * spc <= 0x200_0000
                && (bps * spc) % 32 == 0 && 1 <= count <= 0xFFFF_FFF5 && fat_start <= 0xFFFF_FFFF
                && heap <= 0xFFFF_FFFF * 4096),
    {
        proof {
            assert(512 <= bps <= 4096 && spc > 0x200_0000 ==> bps * spc > 0x200_0000) by (nonlinear_arith);
        }
        if bps < 512 || bps > 4096 || bps % 4 != 0 || spc < 1 || spc > 0x200_0000 {
            return None;
        }
        proof {
            assert(bps * spc <= 4096 * 0x200_0000) by (nonlinear_arith)
                requires
                    bps <= 4096,
                    spc <= 0x200_0000,
            ;
            assert(bps * spc >= bps) by (nonlinear_arith)
                requires
                    spc >= 1,
            ;
        }
        let bpc: u64 = bps as u64 * spc as u64;
        if bpc > 0x200_0000 || bpc % 32 != 0 || count < 1 || count > 0xFFFF_FFF5 || fat_start > 0xFFFF_FFFF
            || heap > 0xFFFF_FFFF * 4096 {
            return None;
        }
        Some(
            Geometry {
                bytes_per_sector: bps,
                sectors_per_cluster: spc,
                bytes_per_cluster: bpc as u32,
                fat_start_sector: fat_start,
                fat_length_sectors: fat_len,
                cluster_heap_start: heap,
                cluster_count: count as u32,
                root_first_cluster: root,
            },
        )
    }
}

/// The geometry a FAT32 boot sector gives.
pub open spec fn fat32_geometry(bs: fat32::BootSec) -> Geometry {
    Geometry {
        bytes_per_sector: bs.bpb_byts_per_sec as u32,
        sectors_per_cluster: bs.bpb_sec_per_clus as u32,
        bytes_per_cluster: (bs.bpb_byts_per_sec * bs.bpb_sec_per_clus) as u32,
        fat_start_sector: bs.bpb_rsvd_sec_cnt as u64,
        fat_length_sectors: (bs.bpb_fat_sz_32 * bs.bpb_num_fats) as u64,
        cluster_heap_start: (bs.spec_data_start() * bs.bpb_byts_per_sec) as u64,
        cluster_count: (bs.spec_data_sectors() / (bs.bpb_sec_per_clus as int)) as u32,
        root_first_cluster: bs.bpb_root_clus,
    }
}

/// The geometry an exFAT boot sector gives.
pub open spec fn exfat_geometry(bs: exfat::BootSec) -> Geometry {
    Geometry {
        bytes_per_sector: pow2(bs.bytes_per_sector_shift as nat) as u32,
        sectors_per_cluster: pow2(bs.sectors_per_cluster_shift as nat) as u32,
        bytes_per_cluster: (pow2(bs.bytes_per_sector_shift as nat) * pow2(bs.sectors_per_cluster_shift as nat)) as u32,
        fat_start_sector: bs.fat_offset as u64,
        fat_length_sectors: bs.fat_length as u64,
        cluster_heap_start: (bs.cluster_heap_offset * pow2(bs.bytes_per_sector_shift as nat)) as u64,
        cluster_count: bs.cluster_count,
        root_first_cluster: bs.first_cluster_of_root_dir,
    }
}

/// The first sector of `disk` is a supported boot sector of format `kind`, and
/// `g` is the geometry it gives.
pub open spec fn boot_geometry(disk: Seq<u8>, kind: FsType, g: Geometry) -> bool {
    match kind {
        FsType::Fat32 => exists|bs: fat32::BootSec|
            #[trigger] fat32::boot_sec_of(bs, disk.take(512)) && bs.spec_check() && g == fat32_geometry(bs),
        FsType::Exfat => exists|bs: exfat::BootSec|
            #[trigger] exfat::boot_sec_of(bs, disk.take(512)) && bs.spec_valid() && g == exfat_geometry(bs),
    }
}

/// A valid cluster number of the volume.
pub open spec fn in_range(g: Geometry, c: int) -> bool {
    2 <= c <= g.cluster_count + 1
}

/// Where a cluster's table entry points.
#[derive(Debug, Clone, Copy, PartialEq, Eq, Structural)]
pub enum Link {
    /// The chain goes on at this cluster.
    Next(u32),
    /// The chain ends here (end of chain, or a reserved or free entry).
    End,
    /// A bad cluster: the chain is broken.
    Bad,
}

/// The byte offset of cluster `c`'s table entry.
pub open spec fn fat_entry_offset(g: Geometry, c: int) -> int {
    g.fat_start_sector * g.bytes_per_sector + 4 * c
}

/// The link that the table entry of cluster `c` holds on the medium `disk`.
pub open spec fn link_of(disk: Seq<u8>, g: Geometry, kind: FsType, c: int) -> Link {
    let raw = le32(disk, fat_entry_offset(g, c));
    match kind {
        FsType::Fat32 => match fat32::fat_ent_of(raw) {
            fat32::FatEnt::Next(n) => Link::Next(n),
            fat32::FatEnt::Bad => Link::Bad,
            _ => Link::End,
        },
        FsType::Exfat => match exfat::fat_ent_of(raw as u32, g.cluster_count) {
            exfat::FatEnt::Chain(n) => Link::Next(n),
            exfat::FatEnt::BadCluster => Link::Bad,
            _ => Link::End,
        },
    }
}

/// The first `fuel` clusters of the chain that starts at `c` (fewer where it
/// ends sooner); `None` where it meets a bad cluster or a cluster number out of
/// range.
pub open spec fn chain(disk: Seq<u8>, g: Geometry, kind: FsType, c: u32, fuel: nat) -> Option<
    Seq<u32>,
>
    decreases fuel,
{
    if fuel == 0 {
        Some(Seq::empty())
    } else if !in_range(g, c as int) {
        None
    } else {
        match link_of(disk, g, kind, c as int) {
            Link::End => Some(seq![c]),
            Link::Bad => None,
            Link::Next(n) => match chain(disk, g, kind, n, (fuel - 1) as nat) {
                Some(s) => Some(seq![c] + s),
                None => None,
            },
        }
    }
}

/// The bytes of cluster `c`.
pub open spec fn cluster_bytes(disk: Seq<u8>, g: Geometry, c: int) -> Seq<u8> {
    let start = g.cluster_heap_start + (c - 2) * g.bytes_per_cluster;
    disk.subrange(start, start + g.bytes_per_cluster)
}

/// Byte `p` of the data held by the clusters `cl`, laid end to end.
pub open spec fn file_byte(disk: Seq<u8>, g: Geometry, cl: Seq<u32>, p: int) -> u8 {
    cluster_bytes(disk, g, cl[p / g.bytes_per_cluster as int] as int)[p % g.bytes_per_cluster as int]
}

/// How many bytes a read of `len` bytes at `off` yields from a file of `size`
/// bytes: `min(len, size - off)`, and none at or past the end.
pub open spec fn read_len(size: int, off: int, len: int) -> int {
    if off >= size {
        0
    } else if len < size - off {
        len
    } else {
        size - off
    }
}

/// How many clusters of its chain a read of `len` bytes at `off` of a file of
/// `size` bytes needs.
pub open spec fn read_need(g: Geometry, size: u64, off: u32, len: u32) -> nat {
    let n = read_len(size as int, off as int, len as int);
    if n == 0 {
        0
    } else {
        ((off + n - 1) / g.bytes_per_cluster as int + 1) as nat
    }
}

/// The errors a read may end in: a device error, a broken chain, or a chain that
/// ends before the bytes asked for.
pub open spec fn read_error(
    disk: Seq<u8>,
    g: Geometry,
    kind: FsType,
    first: u32,
    size: u64,
    off: u32,
    len: u32,
    e: FsError,
) -> bool {
    let need = read_need(g, size, off, len);
    ||| e == FsError::Io
    ||| (e == FsError::BadCluster || e == FsError::ClusterOutOfRange) && chain(disk, g, kind, first, need) is None
    ||| e == FsError::ChainTooShort && (chain(disk, g, kind, first, need) matches Some(cl) && cl.len() < need)
}

/// The bytes that a read of `len` bytes at `off` returns from the file of `size`
/// bytes whose data starts at cluster `first`; `None` where its chain is broken or
/// ends before the bytes asked for.
pub open spec fn read_spec(
    disk: Seq<u8>,
    g: Geometry,
    kind: FsType,
    first: u32,
    size: u64,
    off: u32,
    len: u32,
) -> Option<Seq<u8>> {
    let n = read_len(size as int, off as int, len as int);
    if n == 0 {
        Some(Seq::empty())
    } else {
        let need = ((off + n - 1) / g.bytes_per_cluster as int + 1) as nat;
        match chain(disk, g, kind, first, need) {
            Some(cl) => if cl.len() == need {
                Some(Seq::new(n as nat, |i: int| file_byte(disk, g, cl, off + i)))
            } else {
                None
            },
            None => None,
        }
    }
}

/// The bytes of the clusters `cl`, laid end to end.
pub open spec fn flat(disk: Seq<u8>, g: Geometry, cl: Seq<u32>) -> Seq<u8>
    decreases cl.len(),
{
    if cl.len() == 0 {
        Seq::empty()
    } else {
        flat(disk, g, cl.drop_last()) + cluster_bytes(disk, g, cl.last() as int)
    }
}

/// Record `i` of a run of 32-byte records.
pub open spec fn record(raw: Seq<u8>, i: int) -> Seq<u8> {
    raw.subrange(32 * i, 32 * i + 32)
}

/// The scan of a FAT32 directory's records `0..t`: the file entries found so far,
/// each as the record where its run of long-name fragments starts and the record
/// of its short entry; where the pending run starts; whether the end marker was
/// met.
pub open spec fn fat32_scan(raw: Seq<u8>, t: nat) -> (Seq<(int, int)>, int, bool)
    decreases t,
{
    if t == 0 {
        (Seq::empty(), 0, false)
    } else {
        let (o, s, ended) = fat32_scan(raw, (t - 1) as nat);
        let i = t - 1;
        if ended {
            (o, s, ended)
        } else if raw[32 * i + 11] == fat32::ATTR_LONG_FILE_NAME {
            (o, s, false)
        } else if raw[32 * i] == 0 {
            (o, s, true)
        } else if fat32::sfn_skipped(record(raw, i)) {
            (o, t as int, false)
        } else {
            (o.push((s, i)), t as int, false)
        }
    }
}

/// `v` lists the FAT32 directory whose records are `raw`, read from the clusters
/// `cl` of `rpc` records each: one file-info per short entry before the end
/// marker that is neither deleted nor a volume label, in disk order, each
/// identified by where its short entry lies.
pub open spec fn fat32_listed(v: Seq<crate::finfo::Finfo>, raw: Seq<u8>, cl: Seq<u32>, rpc: int) -> bool {
    let o = fat32_scan(raw, (raw.len() / 32) as nat).0;
    &&& v.len() == o.len()
    &&& forall|k: int|
        0 <= k < v.len() ==> fat32::run_info(
            #[trigger] v[k],
            raw.subrange(32 * o[k].0, 32 * o[k].1 + 32),
            cl[o[k].1 / rpc],
            (o[k].1 % rpc) as u32,
        )
}

proof fn lemma_fat32_scan_ended(raw: Seq<u8>, t: nat, u: nat)
    requires
        t <= u,
        fat32_scan(raw, t).2,
    ensures
        fat32_scan(raw, u) == fat32_scan(raw, t),
    decreases u - t,
{
    if t < u {
        lemma_fat32_scan_ended(raw, t, (u - 1) as nat);
    }
}

/// The records `idx` of `raw`, concatenated.
pub open spec fn gather(raw: Seq<u8>, idx: Seq<int>) -> Seq<u8>
    decreases idx.len(),
{
    if idx.len() == 0 {
        Seq::empty()
    } else {
        gather(raw, idx.drop_last()) + record(raw, idx.last())
    }
}

/// An exFAT entry set that reduces to a file-info: well formed, with a matching
/// checksum.
pub open spec fn set_reduces(set: Seq<u8>) -> bool {
    exfat::set_shape_ok(set) && exfat::set_sum(set, set.len()) == crate::codec::le16(set, 2)
}

/// The sets found so far, with the pending one added where it reduces.
pub open spec fn exfat_flush(raw: Seq<u8>, outs: Seq<Seq<int>>, pend: Seq<int>) -> Seq<Seq<int>> {
    if pend.len() > 0 && set_reduces(gather(raw, pend)) {
        outs.push(pend)
    } else {
        outs
    }
}

/// The scan of an exFAT directory's records `0..t`: the entry sets that reduced
/// (as record indexes), the pending set, whether the terminator was met, and
/// whether a record of undefined type was met. A file record closes the pending
/// set and opens a new one; stream-extension and name records join the pending
/// set; other records are passed over.
pub open spec fn exfat_scan(raw: Seq<u8>, t: nat) -> (Seq<Seq<int>>, Seq<int>, bool, bool)
    decreases t,
{
    if t == 0 {
        (Seq::empty(), Seq::empty(), false, false)
    } else {
        let (o, p, ended, bad) = exfat_scan(raw, (t - 1) as nat);
        let i = t - 1;
        if ended || bad {
            (o, p, ended, bad)
        } else {
            match exfat::type_of(raw[32 * i]) {
                None => (o, p, false, true),
                Some(exfat::Type::FinalUnused) => (o, p, true, false),
                Some(exfat::Type::FileOrDir) => (exfat_flush(raw, o, p), seq![i], false, false),
                Some(exfat::Type::StreamExt) => (o, p.push(i), false, false),
                Some(exfat::Type::FileName) => (o, p.push(i), false, false),
                _ => (o, p, false, false),
            }
        }
    }
}

/// The entry sets of an exFAT directory whose records are `raw`.
pub open spec fn exfat_sets(raw: Seq<u8>) -> Seq<Seq<int>> {
    let (o, p, ended, bad) = exfat_scan(raw, (raw.len() / 32) as nat);
    exfat_flush(raw, o, p)
}

/// `v` lists the exFAT directory whose records are `raw`, read from the clusters
/// `cl` of `rpc` records each: one file-info per entry set that reduces, in disk
/// order, each identified by where its file record lies.
pub open spec fn exfat_listed(v: Seq<crate::finfo::Finfo>, raw: Seq<u8>, cl: Seq<u32>, rpc: int) -> bool {
    let sets = exfat_sets(raw);
    &&& v.len() == sets.len()
    &&& forall|k: int|
        0 <= k < v.len() ==> exfat::set_info(
            #[trigger] v[k],
            gather(raw, sets[k]),
            cl[sets[k][0] / rpc],
            (sets[k][0] % rpc) as u32,
        )
}

proof fn lemma_exfat_scan_stopped(raw: Seq<u8>, t: nat, u: nat)
    requires
        t <= u,
        exfat_scan(raw, t).2 || exfat_scan(raw, t).3,
    ensures
        exfat_scan(raw, u) == exfat_scan(raw, t),
    decreases u - t,
{
    if t < u {
        lemma_exfat_scan_stopped(raw, t, (u - 1) as nat);
    }
}

/// The errors a directory listing may end in: a device error, a broken chain, or
/// (exFAT) a record of undefined type.
pub open spec fn dir_error(disk: Seq<u8>, g: Geometry, kind: FsType, first: u32, e: FsError) -> bool {
    ||| e == FsError::Io
    ||| (e == FsError::BadCluster || e == FsError::ClusterOutOfRange) && chain(disk, g, kind, first, g.cluster_count as nat) is None
    ||| kind == FsType::Exfat && e is UndefinedEntry && (chain(disk, g, kind, first, g.cluster_count as nat) matches Some(cl)
        && exfat_scan(flat(disk, g, cl), (flat(disk, g, cl).len() / 32) as nat).3)
}

/// `v` lists the directory whose first cluster is `first` (an empty directory
/// where `first` is 0).
pub open spec fn listed(disk: Seq<u8>, g: Geometry, kind: FsType, first: u32, v: Seq<crate::finfo::Finfo>) -> bool {
    match chain(disk, g, kind, first, g.cluster_count as nat) {
        Some(cl) => match kind {
            FsType::Fat32 => fat32_listed(v, flat(disk, g, cl), cl, (g.bytes_per_cluster / 32) as int),
            FsType::Exfat => !exfat_scan(flat(disk, g, cl), (flat(disk, g, cl).len() / 32) as nat).3
                && exfat_listed(v, flat(disk, g, cl), cl, (g.bytes_per_cluster / 32) as int),
        },
        None => false,
    }
}

/// The first cluster that the first allocation-bitmap record among records
/// `t..n` holds, stopping at the terminator; 0 where there is none.
pub open spec fn first_bitmap(raw: Seq<u8>, t: int, n: int) -> u32
    decreases n - t,
{
    if t >= n || t < 0 {
        0
    } else if raw[32 * t] == 0 {
        0
    } else if raw[32 * t] == 0x81 {
        le32(raw, 32 * t + 20) as u32
    } else {
        first_bitmap(raw, t + 1, n)
    }
}

/// The scan of an exFAT directory's records `0..t` for its decoded records: the
/// records in use met so far, whether the terminator was met, and whether a
/// record of undefined type was met.
pub open spec fn entries_scan(raw: Seq<u8>, t: nat) -> (Seq<int>, bool, bool)
    decreases t,
{
    if t == 0 {
        (Seq::empty(), false, false)
    } else {
        let (o, ended, bad) = entries_scan(raw, (t - 1) as nat);
        let i = t - 1;
        if ended || bad {
            (o, ended, bad)
        } else {
            match exfat::type_of(raw[32 * i]) {
                None => (o, false, true),
                Some(exfat::Type::FinalUnused) => (o, true, false),
                Some(exfat::Type::Unused) => (o, false, false),
                _ => (o.push(i), false, false),
            }
        }
    }
}

proof fn lemma_entries_scan_stopped(raw: Seq<u8>, t: nat, u: nat)
    requires
        t <= u,
        entries_scan(raw, t).1 || entries_scan(raw, t).2,
    ensures
        entries_scan(raw, u) == entries_scan(raw, t),
    decreases u - t,
{
    if t < u {
        lemma_entries_scan_stopped(raw, t, (u - 1) as nat);
    }
}

/// A volume of one of the two formats on a device.
pub struct Fio<D: Device> {
    pub dev: D,
    pub geo: Geometry,
    pub kind: FsType,
    /// The first cluster of the allocation bitmap (exFAT; 0 where none was found).
    pub bitmap_clusno: u32,
}

impl<D: Device> Fio<D> {
    pub open spec fn wf(&self) -> bool {
        self.geo.wf()
    }

    pub open spec fn disk(&self) -> Seq<u8> {
        self.dev.content()
    }

    /// Reads the table entry of cluster `c` (one sector of the FAT) and tells
    /// where it points.
    pub fn read_fat(&self, c: u32) -> (r: Result<Link, FsError>)
        requires
            self.wf(),
            in_range(self.geo, c as int),
        ensures
            r matches Err(e) ==> e == FsError::Io,
            r matches Ok(l) ==> l == link_of(self.disk(), self.geo, self.kind, c as int),
    {
        let g = self.geo;
        let eps: u32 = g.bytes_per_sector / 4;
        let sec: u64 = g.fat_start_sector + (c / eps) as u64;
        let in_sec: usize = ((c % eps) * 4) as usize;
        proof {
            lemma_fundamental_div_mod(c as int, eps as int);
            assert(eps * (c / eps) <= c);
            assert(sec * g.bytes_per_sector <= (0xFFFF_FFFFu64 + 0xFFFF_FFFF) * 4096) by (nonlinear_arith)
                requires
                    sec <= 0xFFFF_FFFFu64 + 0xFFFF_FFFF,
                    g.bytes_per_sector <= 4096,
            ;
            assert(sec * g.bytes_per_sector + in_sec == fat_entry_offset(g, c as int)) by (nonlinear_arith)
                requires
                    sec == g.fat_start_sector + c / eps,
                    in_sec == (c % eps) * 4,
                    g.bytes_per_sector == 4 * eps,
                    c == eps * (c / eps) + c % eps,
            ;
        }
        let bytes = self.read_sec(sec)?;
        let raw = read_u32(bytes.as_slice(), in_sec);
        proof {
            let o = sec * g.bytes_per_sector;
            assert(bytes@[in_sec as int] == self.disk()[o + in_sec]);
            assert(bytes@[in_sec + 1] == self.disk()[o + in_sec + 1]);
            assert(bytes@[in_sec + 2] == self.disk()[o + in_sec + 2]);
            assert(bytes@[in_sec + 3] == self.disk()[o + in_sec + 3]);
        }
        match self.kind {
            FsType::Fat32 => match fat32::FatEnt::new(bytes.as_slice().split_at(in_sec).1) {
                fat32::FatEnt::Next(n) => Ok(Link::Next(n)),
                fat32::FatEnt::Bad => Ok(Link::Bad),
                _ => Ok(Link::End),
            },
            FsType::Exfat => match exfat::FatEnt::new(raw, g.cluster_count) {
                exfat::FatEnt::Chain(n) => Ok(Link::Next(n)),
                exfat::FatEnt::BadCluster => Ok(Link::Bad),
                _ => Ok(Link::End),
            },
        }
    }


    /// Opens the volume of format `kind` on `dev`: reads and checks the boot
    /// sector and derives the geometry; for exFAT, also reads the root directory
    /// once to find the allocation bitmap.
    pub fn new(dev: D, kind: FsType) -> (r: Result<Fio<D>, FsError>)
        ensures
            r matches Ok(f) ==> f.wf() && f.kind == kind && f.dev == dev && boot_geometry(dev.content(), kind, f.geo),
            r matches Err(e) ==> e != FsError::NotFound,
            kind == FsType::Fat32 && (forall|bs: fat32::BootSec| #[trigger] fat32::boot_sec_of(bs, dev.content().take(512))
                ==> !bs.spec_check()) ==> r is Err,
            kind == FsType::Exfat && (forall|bs: exfat::BootSec| #[trigger] exfat::boot_sec_of(bs, dev.content().take(512))
                ==> !bs.spec_valid()) ==> r is Err,
    {
        let sector = dev.read_exact_at(0, 512)?;
        assert(sector@ =~= dev.content().take(512));
        let g = match kind {
            FsType::Fat32 => {
                let bs = match fat32::BootSec::new(sector.as_slice()) {
                    Ok(b) => b,
                    Err(e) => return Err(e),
                };
                if !bs.check_fat32() {
                    return Err(FsError::InvalidBootSector);
                }
                let bps = bs.bpb_byts_per_sec as u32;
                let spc = bs.bpb_sec_per_clus as u32;
                proof {
                    assert(bs.spec_data_start() * bs.bpb_byts_per_sec <= (0xFFFF + 0xFFFF_FFFF * 0xFF) * 0xFFFF) by (nonlinear_arith)
                        requires
                            bs.spec_data_start() <= 0xFFFF + 0xFFFF_FFFF * 0xFF,
                            bs.spec_data_start() >= 0,
                            bs.bpb_byts_per_sec <= 0xFFFF,
                    ;
                    assert(bs.bpb_fat_sz_32 * bs.bpb_num_fats <= 0xFFFF_FFFF * 0xFF) by (nonlinear_arith);
                }
                let heap: u64 = bs.data_start_sector() * bps as u64;
                let count: u64 = bs.data_sectors() / spc as u64;
                match Geometry::checked(bps, spc, bs.fat_start_sector() as u64, bs.fat_sectors(), heap, count, bs.bpb_root_clus) {
                    Some(g) => {
                        assert(g == fat32_geometry(bs));
                        g
                    },
                    None => return Err(FsError::InvalidBootSector),
                }
            },
            FsType::Exfat => {
                let bs = match exfat::BootSec::new(sector.as_slice()) {
                    Some(b) => b,
                    None => return Err(FsError::InvalidBootSector),
                };
                if !bs.is_valid() {
                    return Err(FsError::InvalidBootSector);
                }
                let bps = bs.bytes_per_sec();
                let spc = bs.secs_per_clus();
                proof {
                    vstd::arithmetic::power2::lemma2_to64();
                    if bs.bytes_per_sector_shift < 12 {
                        vstd::arithmetic::power2::lemma_pow2_strictly_increases(bs.bytes_per_sector_shift as nat, 12);
                    }
                    assert(bps <= 4096);
                    assert(bs.cluster_heap_offset * bps <= 0xFFFF_FFFF * 4096) by (nonlinear_arith)
                        requires
                            bps <= 4096,
                            bs.cluster_heap_offset <= 0xFFFF_FFFF,
                    ;
                }
                let heap: u64 = bs.cluster_heap_offset as u64 * bps as u64;
                match Geometry::checked(bps, spc, bs.fat_offset as u64, bs.fat_length as u64, heap, bs.cluster_count as u64, bs.first_cluster_of_root_dir) {
                    Some(g) => {
                        assert(g == exfat_geometry(bs));
                        g
                    },
                    None => return Err(FsError::InvalidBootSector),
                }
            },
        };
        let mut fio = Fio { dev, geo: g, kind, bitmap_clusno: 0 };
        if kind == FsType::Exfat {
            fio.bitmap_clusno = fio.find_bitmap()?;
        }
        Ok(fio)
    }

    /// The first cluster of the allocation bitmap that the root directory records
    /// (0 where it records none before its terminator).
    pub fn find_bitmap(&self) -> (r: Result<u32, FsError>)
        requires
            self.wf(),
        ensures
            r matches Err(e) ==> e != FsError::NotFound,
            r matches Ok(c) ==> (chain(self.disk(), self.geo, self.kind, self.geo.root_first_cluster, self.geo.cluster_count as nat) matches Some(cl)
                && c == first_bitmap(flat(self.disk(), self.geo, cl), 0, (flat(self.disk(), self.geo, cl).len() / 32) as int)),
    {
        let (_cl, raw) = self.read_dir(self.geo.root_first_cluster)?;
        let n = raw.len() / 32;
        let mut t: usize = 0;
        while t < n
            invariant
                chain(self.disk(), self.geo, self.kind, self.geo.root_first_cluster, self.geo.cluster_count as nat) == Some(_cl@),
                raw@ == flat(self.disk(), self.geo, _cl@),
                n == raw@.len() / 32,
                raw@.len() <= usize::MAX,
                t <= n,
                first_bitmap(raw@, 0, n as int) == first_bitmap(raw@, t as int, n as int),
            decreases n - t,
        {
            let b = raw[32 * t];
            if b == 0 {
                return Ok(0);
            }
            if b == 0x81 {
                return Ok(crate::codec::read_u32(raw.as_slice(), 32 * t + 20));
            }
            t += 1;
        }
        Ok(0)
    }

    /// The decoded records of the exFAT directory whose first cluster is `first`,
    /// in disk order, up to its terminator and without the unused ones.
    #[verifier::rlimit(80)]
    pub fn read_entries(&self, first: u32) -> (r: Result<Vec<exfat::DirEnt>, FsError>)
        requires
            self.wf(),
        ensures
            r matches Err(e) ==> e == FsError::Io || ((e == FsError::BadCluster || e == FsError::ClusterOutOfRange)
                && chain(self.disk(), self.geo, self.kind, first, self.geo.cluster_count as nat) is None) || (e is UndefinedEntry
                && (chain(self.disk(), self.geo, self.kind, first, self.geo.cluster_count as nat) matches Some(cl)
                && entries_scan(flat(self.disk(), self.geo, cl), (flat(self.disk(), self.geo, cl).len() / 32) as nat).2)),
            chain(self.disk(), self.geo, self.kind, first, self.geo.cluster_count as nat) is None ==> r is Err,
            (chain(self.disk(), self.geo, self.kind, first, self.geo.cluster_count as nat) matches Some(cl)
                && entries_scan(flat(self.disk(), self.geo, cl), (flat(self.disk(), self.geo, cl).len() / 32) as nat).2)
                ==> r is Err,
            r matches Ok(v) ==> (chain(self.disk(), self.geo, self.kind, first, self.geo.cluster_count as nat) matches Some(cl)
                && v@.len() == entries_scan(flat(self.disk(), self.geo, cl), (flat(self.disk(), self.geo, cl).len() / 32) as nat).0.len()
                && forall|k: int| 0 <= k < v@.len() ==> {
                    let o = entries_scan(flat(self.disk(), self.geo, cl), (flat(self.disk(), self.geo, cl).len() / 32) as nat).0;
                    let rpc = (self.geo.bytes_per_cluster / 32) as int;
                    exfat::dirent_of(#[trigger] v@[k], record(flat(self.disk(), self.geo, cl), o[k]), cl[o[k] / rpc], (o[k] % rpc) as u32)
                }),
    {
        let (cl, raw) = self.read_dir(first)?;
        let ghost rawv = raw@;
        let rpc: usize = (self.geo.bytes_per_cluster / 32) as usize;
        let total: usize = raw.len() / 32;
        proof {
            assert(raw@.len() == cl@.len() * (32 * rpc)) by (nonlinear_arith)
                requires
                    raw@.len() == cl@.len() * self.geo.bytes_per_cluster,
                    self.geo.bytes_per_cluster == 32 * rpc,
            ;
            assert(raw@.len() == (cl@.len() * rpc) * 32 + 0) by (nonlinear_arith)
                requires
                    raw@.len() == cl@.len() * (32 * rpc),
            ;
            lemma_fundamental_div_mod_converse_div(raw@.len() as int, 32, (cl@.len() * rpc) as int, 0);
            lemma_fundamental_div_mod_converse_mod(raw@.len() as int, 32, (cl@.len() * rpc) as int, 0);
        }
        let mut out: Vec<exfat::DirEnt> = Vec::new();
        let mut t: usize = 0;
        while t < total
            invariant
                rawv == raw@,
                chain(self.disk(), self.geo, self.kind, first, self.geo.cluster_count as nat) == Some(cl@),
                rawv == flat(self.disk(), self.geo, cl@),
                raw@.len() <= usize::MAX,
                total == raw@.len() / 32,
                raw@.len() % 32 == 0,
                total == cl@.len() * rpc,
                rpc > 0,
                rpc == self.geo.bytes_per_cluster / 32,
                t <= total,
                !entries_scan(rawv, t as nat).1,
                !entries_scan(rawv, t as nat).2,
                out@.len() == entries_scan(rawv, t as nat).0.len(),
                forall|k: int| 0 <= k < out@.len() ==> exfat::dirent_of(
                    #[trigger] out@[k],
                    record(rawv, entries_scan(rawv, t as nat).0[k]),
                    cl@[entries_scan(rawv, t as nat).0[k] / rpc as int],
                    (entries_scan(rawv, t as nat).0[k] % rpc as int) as u32,
                ),
            decreases total - t,
        {
            proof {
                assert((t as int) / (rpc as int) < cl@.len()) by (nonlinear_arith)
                    requires
                        t < total,
                        total == cl@.len() * rpc,
                        rpc > 0,
                ;
            }
            let rec = crate::codec::copy_bytes(raw.as_slice(), 32 * t, 32);
            assert(rec@ =~= record(rawv, t as int));
            let ghost o = entries_scan(rawv, t as nat).0;
            match exfat::DirEnt::new(rec.as_slice(), cl[t / rpc], (t % rpc) as u32) {
                Err(_) => {
                    proof {
                        assert(entries_scan(rawv, (t + 1) as nat).2);
                        lemma_entries_scan_stopped(rawv, (t + 1) as nat, total as nat);
                    }
                    return Err(FsError::UndefinedEntry(raw[32 * t]));
                },
                Ok(exfat::DirEnt::FinalUnused) => {
                    proof {
                        assert(entries_scan(rawv, (t + 1) as nat).1);
                        lemma_entries_scan_stopped(rawv, (t + 1) as nat, total as nat);
                    }
                    return Ok(out);
                },
                Ok(exfat::DirEnt::Unused) => {},
                Ok(e) => {
                    out.push(e);
                    proof {
                        let o2 = entries_scan(rawv, (t + 1) as nat).0;
                        assert(o2 == o.push(t as int));
                        assert forall|k: int| 0 <= k < out@.len() implies exfat::dirent_of(
                            #[trigger] out@[k],
                            record(rawv, o2[k]),
                            cl@[o2[k] / rpc as int],
                            (o2[k] % rpc as int) as u32,
                        ) by {
                            if k < o.len() {
                                assert(o2[k] == o[k]);
                            }
                        }
                    }
                },
            }
            t += 1;
        }
        Ok(out)
    }

    /// The bytes of sector `secno`.
    pub fn read_sec(&self, secno: u64) -> (r: Result<Vec<u8>, FsError>)
        requires
            self.wf(),
            secno * self.geo.bytes_per_sector <= u64::MAX,
        ensures
            r matches Err(e) ==> e == FsError::Io,
            r matches Ok(v) ==> secno * self.geo.bytes_per_sector + self.geo.bytes_per_sector <= self.disk().len()
                && v@ == self.disk().subrange(
                secno * self.geo.bytes_per_sector,
                secno * self.geo.bytes_per_sector + self.geo.bytes_per_sector,
            ),
    {
        self.dev.read_exact_at(secno * self.geo.bytes_per_sector as u64, self.geo.bytes_per_sector as usize)
    }

    /// Lists the directory whose first cluster is `first`.
    pub fn read_dirents(&self, first: u32) -> (r: Result<Vec<crate::finfo::Finfo>, FsError>)
        requires
            self.wf(),
        ensures
            r matches Err(e) ==> dir_error(self.disk(), self.geo, self.kind, first, e),
            first == 0 ==> (r matches Ok(v) && v@.len() == 0),
            first != 0 && !in_range(self.geo, first as int) ==> r == Err::<Vec<crate::finfo::Finfo>, FsError>(
                FsError::ClusterOutOfRange,
            ),
            first != 0 ==> (r matches Ok(v) ==> listed(self.disk(), self.geo, self.kind, first, v@)),
            first != 0 && chain(self.disk(), self.geo, self.kind, first, self.geo.cluster_count as nat) is None ==> r is Err,
            first != 0 && self.kind == FsType::Exfat && (chain(self.disk(), self.geo, self.kind, first, self.geo.cluster_count as nat) matches Some(cl)
                && exfat_scan(flat(self.disk(), self.geo, cl), (flat(self.disk(), self.geo, cl).len() / 32) as nat).3)
                ==> r is Err,
    {
        if first == 0 {
            return Ok(Vec::new());
        }
        match self.kind {
            FsType::Fat32 => self.list_fat32(first),
            FsType::Exfat => self.list_exfat(first),
        }
    }

    /// Lists the root directory.
    pub fn readroot(&self) -> (r: Result<Vec<crate::finfo::Finfo>, FsError>)
        requires
            self.wf(),
        ensures
            r matches Err(e) ==> e != FsError::NotFound,
            self.geo.root_first_cluster != 0 ==> (r matches Ok(v) ==> listed(self.disk(), self.geo, self.kind, self.geo.root_first_cluster, v@)),
    {
        self.read_dirents(self.geo.root_first_cluster)
    }

    /// The chain starting at `first`, at most `limit` clusters of it, in order.
    #[verifier::rlimit(60)]
    pub fn walk_fats(&self, first: u32, limit: u64) -> (r: Result<Vec<u32>, FsError>)
        requires
            self.wf(),
        ensures
            r matches Err(e) ==> e == FsError::Io || ((e == FsError::BadCluster || e
                == FsError::ClusterOutOfRange) && chain(self.disk(), self.geo, self.kind, first, limit as nat)
                is None),
            limit == 0 ==> (r matches Ok(v) && v@.len() == 0),
            limit > 0 && !in_range(self.geo, first as int) ==> r == Err::<Vec<u32>, FsError>(
                FsError::ClusterOutOfRange,
            ),
            r matches Ok(v) ==> chain(self.disk(), self.geo, self.kind, first, limit as nat)
                == Some(v@),
            r matches Ok(v) ==> forall|i: int| 0 <= i < v@.len() ==> in_range(self.geo, #[trigger] v@[i] as int),
            chain(self.disk(), self.geo, self.kind, first, limit as nat) is None ==> r is Err,
    {
        let ghost disk = self.disk();
        let mut out: Vec<u32> = Vec::new();
        let mut c = first;
        let mut left = limit;
        while left > 0
            invariant
                self.wf(),
                disk == self.disk(),
                chain(disk, self.geo, self.kind, first, limit as nat) == match chain(
                    disk,
                    self.geo,
                    self.kind,
                    c,
                    left as nat,
                ) {
                    Some(s) => Some(out@ + s),
                    None => None,
                },
                forall|i: int| 0 <= i < out@.len() ==> in_range(self.geo, #[trigger] out@[i] as int),
                out@.len() == 0 ==> c == first,
                out@.len() > 0 ==> out@[0] == first,
                left <= limit,
            decreases left,
        {
            if c < 2 || c as u64 > self.geo.cluster_count as u64 + 1 {
                return Err(FsError::ClusterOutOfRange);
            }
            let link = self.read_fat(c)?;
            out.push(c);
            match link {
                Link::Next(n) => {
                    proof {
                        assert forall|s: Seq<u32>| (out@.drop_last() + (seq![c] + s)) == out@ + s by {
                            assert((out@.drop_last() + (seq![c] + s)) =~= out@ + s);
                        }
                    }
                    c = n;
                    left = left - 1;
                },
                Link::End => {
                    assert(out@ =~= out@.drop_last() + seq![c]);
                    return Ok(out);
                },
                Link::Bad => {
                    return Err(FsError::BadCluster);
                },
            }
        }
        assert(out@ + Seq::<u32>::empty() =~= out@);
        Ok(out)
    }

    /// Reads `len` bytes at `off` of the file of `size` bytes whose data starts at
    /// cluster `first`: only the clusters that hold the bytes asked for are read.
    #[verifier::rlimit(60)]
    pub fn read_file(&self, first: u32, size: u64, off: u32, len: u32) -> (r: Result<Vec<u8>, FsError>)
        requires
            self.wf(),
        ensures
            r matches Err(e) ==> read_error(self.disk(), self.geo, self.kind, first, size, off, len, e),
            read_len(size as int, off as int, len as int) == 0 ==> (r matches Ok(v) && v@.len() == 0),
            read_len(size as int, off as int, len as int) > 0 && !in_range(self.geo, first as int) ==> r
                == Err::<Vec<u8>, FsError>(FsError::ClusterOutOfRange),
            r matches Ok(v) ==> read_spec(self.disk(), self.geo, self.kind, first, size, off, len)
                == Some(v@),
            read_spec(self.disk(), self.geo, self.kind, first, size, off, len) is None ==> r is Err,
    {
        let ghost disk = self.disk();
        let g = self.geo;
        let n: u64 = if off as u64 >= size {
            0
        } else if (len as u64) < size - off as u64 {
            len as u64
        } else {
            size - off as u64
        };
        if n == 0 {
            return Ok(Vec::new());
        }
        let cs: u64 = g.bytes_per_cluster as u64;
        let start: u64 = off as u64 / cs;
        let end: u64 = (off as u64 + n - 1) / cs;
        assert(end + 1 == read_need(g, size, off, len));
        let cl = self.walk_fats(first, end + 1)?;
        proof {
            crate::laws::lemma_chain_in_range(disk, g, self.kind, first, (end + 1) as nat);
        }
        if (cl.len() as u64) != end + 1 {
            return Err(FsError::ChainTooShort);
        }
        assert(in_range(g, first as int));
        let ghost cls = cl@;
        proof {
            lemma_fundamental_div_mod(off as int, cs as int);
            lemma_fundamental_div_mod((off + n - 1) as int, cs as int);
            assert(start * cs <= off) by (nonlinear_arith)
                requires
                    start == off as int / cs as int,
                    off == cs * (off as int / cs as int) + off as int % cs as int,
                    (off as int % cs as int) >= 0,
            ;
            assert(end * cs <= off + n - 1) by (nonlinear_arith)
                requires
                    end == (off + n - 1) as int / cs as int,
                    (off + n - 1) == cs * ((off + n - 1) as int / cs as int) + (off + n - 1) as int % cs as int,
                    ((off + n - 1) as int % cs as int) >= 0,
            ;
            assert((end + 1) * cs >= off + n) by (nonlinear_arith)
                requires
                    end == (off + n - 1) as int / cs as int,
                    (off + n - 1) == cs * ((off + n - 1) as int / cs as int) + (off + n - 1) as int % cs as int,
                    ((off + n - 1) as int % cs as int) < cs,
            ;
            assert(start * cs + cs > off) by (nonlinear_arith)
                requires
                    start == off as int / cs as int,
                    off == cs * (off as int / cs as int) + off as int % cs as int,
                    (off as int % cs as int) < cs,
            ;
            assert(end <= off + n - 1) by (nonlinear_arith)
                requires
                    end * cs <= off + n - 1,
                    cs >= 1,
                    end >= 0,
            ;
            assert(start <= end) by (nonlinear_arith)
                requires
                    start * cs <= off,
                    (end + 1) * cs >= off + n,
                    n >= 1,
                    cs > 0,
                    start * cs + cs > off,
            {
            }
        }
        let mut out: Vec<u8> = Vec::new();
        let mut j: u64 = start;
        while j <= end
            invariant
                self.wf(),
                disk == self.disk(),
                g == self.geo,
                cs == g.bytes_per_cluster,
                cs > 0,
                cls == cl@,
                cl@.len() == end + 1,
                forall|i: int| 0 <= i < cl@.len() ==> in_range(g, #[trigger] cl@[i] as int),
                n >= 1,
                n == read_len(size as int, off as int, len as int),
                in_range(g, first as int),
                off + n <= 0x1_0000_0000 + 0xFFFF_FFFF,
                start <= j <= end + 1,
                start * cs <= off,
                start * cs + cs > off,
                end <= off + n - 1,
                (end + 1) * cs >= off + n,
                end * cs <= off + n - 1,
                out@.len() == (if j * cs <= off {
                    0
                } else if j * cs >= off + n {
                    n as int
                } else {
                    j * cs - off
                }),
                forall|i: int| 0 <= i < out@.len() ==> #[trigger] out@[i] == file_byte(disk, g, cls, off + i),
            decreases end + 1 - j,
        {
            proof {
                assert(j * cs <= end * cs) by (nonlinear_arith)
                    requires
                        j <= end,
                        cs > 0,
                ;
                assert((j + 1) * cs == j * cs + cs) by (nonlinear_arith);
                assert(in_range(g, cl@[j as int] as int));
            }
            let bytes = self.read_clus(cl[j as usize])?;
            let base: u64 = j * cs;
            let lo: u64 = if off as u64 > base {
                off as u64 - base
            } else {
                0
            };
            let hi: u64 = if off as u64 + n < base + cs {
                off as u64 + n - base
            } else {
                cs
            };
            proof {
                if j > start {
                    assert(j * cs >= (start + 1) * cs) by (nonlinear_arith)
                        requires
                            j >= start + 1,
                            cs > 0,
                    ;
                    assert((start + 1) * cs == start * cs + cs) by (nonlinear_arith);
                }
                let c = cl@[j as int];
                assert((c - 1) * cs == (c - 2) * cs + cs) by (nonlinear_arith);
            }
            let mut q: u64 = lo;
            while q < hi
                invariant
                    self.wf(),
                    disk == self.disk(),
                    g == self.geo,
                    cs == g.bytes_per_cluster,
                    cs > 0,
                    cls == cl@,
                    cl@.len() == end + 1,
                    j <= end,
                    base == j * cs,
                    bytes@ == cluster_bytes(disk, g, cl@[j as int] as int),
                    bytes@.len() == cs,
                    lo <= q <= hi <= cs,
                    base + lo >= off,
                    base + hi <= off + n,
                    out@.len() == base + q - off,
                    forall|i: int| 0 <= i < out@.len() ==> #[trigger] out@[i] == file_byte(disk, g, cls, off + i),
                decreases hi - q,
            {
                proof {
                    let p = (base + q) as int;
                    lemma_fundamental_div_mod_converse_div(p, cs as int, j as int, q as int);
                    lemma_fundamental_div_mod_converse_mod(p, cs as int, j as int, q as int);
                }
                out.push(bytes[q as usize]);
                q += 1;
            }
            j += 1;
        }
        proof {
            assert(j * cs >= off + n);
            assert(out@ =~= Seq::new(n as nat, |i: int| file_byte(disk, g, cls, off + i)));
        }
        Ok(out)
    }

    /// The bytes of cluster `c`; empty for a cluster number out of range.
    pub fn read_clus(&self, c: u32) -> (r: Result<Vec<u8>, FsError>)
        requires
            self.wf(),
        ensures
            r matches Err(e) ==> e == FsError::Io,
            !in_range(self.geo, c as int) ==> (r matches Ok(v) && v@.len() == 0),
            in_range(self.geo, c as int) ==> (r matches Ok(v) ==> v@ == cluster_bytes(
                self.disk(),
                self.geo,
                c as int,
            ) && self.geo.cluster_heap_start + (c - 1) * self.geo.bytes_per_cluster
                <= self.disk().len()),
    {
        if c < 2 || c as u64 > self.geo.cluster_count as u64 + 1 {
            return Ok(Vec::new());
        }
        let g = self.geo;
        proof {
            assert((c - 2) * g.bytes_per_cluster <= 0xFFFF_FFFFu64 * 0x200_0000) by (nonlinear_arith)
                requires
                    c <= 0xFFFF_FFFFu64,
                    g.bytes_per_cluster <= 0x200_0000,
            ;
            assert((c - 1) * g.bytes_per_cluster == (c - 2) * g.bytes_per_cluster + g.bytes_per_cluster) by (nonlinear_arith);
        }
        let off: u64 = g.cluster_heap_start + (c - 2) as u64 * g.bytes_per_cluster as u64;
        self.dev.read_exact_at(off, g.bytes_per_cluster as usize)
    }
    /// The clusters of the directory starting at `first` and their bytes, laid end
    /// to end.
    pub fn read_dir(&self, first: u32) -> (r: Result<(Vec<u32>, Vec<u8>), FsError>)
        requires
            self.wf(),
        ensures
            r matches Err(e) ==> e == FsError::Io || ((e == FsError::BadCluster || e
                == FsError::ClusterOutOfRange) && chain(self.disk(), self.geo, self.kind, first, self.geo.cluster_count as nat)
                is None),
            !in_range(self.geo, first as int) ==> r == Err::<(Vec<u32>, Vec<u8>), FsError>(
                FsError::ClusterOutOfRange,
            ),
            r matches Ok((cl, raw)) ==> chain(self.disk(), self.geo, self.kind, first, self.geo.cluster_count as nat) == Some(cl@)
                && raw@ == flat(self.disk(), self.geo, cl@)
                && raw@.len() == cl@.len() * self.geo.bytes_per_cluster
                && forall|i: int| 0 <= i < cl@.len() ==> in_range(self.geo, #[trigger] cl@[i] as int),
            chain(self.disk(), self.geo, self.kind, first, self.geo.cluster_count as nat) is None ==> r is Err,
    {
        let cl = self.walk_fats(first, self.geo.cluster_count as u64)?;
        let mut raw: Vec<u8> = Vec::new();
        let mut i: usize = 0;
        while i < cl.len()
            invariant
                self.wf(),
                in_range(self.geo, first as int),
                chain(self.disk(), self.geo, self.kind, first, self.geo.cluster_count as nat) == Some(cl@),
                i <= cl@.len(),
                forall|j: int| 0 <= j < cl@.len() ==> in_range(self.geo, #[trigger] cl@[j] as int),
                raw@ == flat(self.disk(), self.geo, cl@.take(i as int)),
                raw@.len() == i * self.geo.bytes_per_cluster,
            decreases cl@.len() - i,
        {
            proof {
                assert(in_range(self.geo, cl@[i as int] as int));
            }
            let mut bytes = self.read_clus(cl[i])?;
            proof {
                let c = cl@[i as int];
                assert((c - 1) * self.geo.bytes_per_cluster == (c - 2) * self.geo.bytes_per_cluster + self.geo.bytes_per_cluster) by (nonlinear_arith);
                assert(cl@.take(i + 1).drop_last() =~= cl@.take(i as int));
                assert((i + 1) * self.geo.bytes_per_cluster == i * self.geo.bytes_per_cluster + self.geo.bytes_per_cluster) by (nonlinear_arith);
            }
            raw.append(&mut bytes);
            i += 1;
        }
        assert(cl@.take(cl@.len() as int) =~= cl@);
        Ok((cl, raw))
    }

    /// Lists a FAT32 directory whose first cluster is `first`.
    #[verifier::rlimit(100)]
    pub fn list_fat32(&self, first: u32) -> (r: Result<Vec<crate::finfo::Finfo>, FsError>)
        requires
            self.wf(),
        ensures
            r matches Err(e) ==> dir_error(self.disk(), self.geo, self.kind, first, e),
            !in_range(self.geo, first as int) ==> r == Err::<Vec<crate::finfo::Finfo>, FsError>(
                FsError::ClusterOutOfRange,
            ),
            r matches Ok(v) ==> (chain(self.disk(), self.geo, self.kind, first, self.geo.cluster_count as nat) matches Some(cl)
                && fat32_listed(v@, flat(self.disk(), self.geo, cl), cl, (self.geo.bytes_per_cluster / 32) as int)),
            chain(self.disk(), self.geo, self.kind, first, self.geo.cluster_count as nat) is None ==> r is Err,
    {
        let (cl, raw) = self.read_dir(first)?;
        let ghost rawv = raw@;
        let rpc: usize = (self.geo.bytes_per_cluster / 32) as usize;
        let total: usize = raw.len() / 32;
        proof {
            assert(raw@.len() == cl@.len() * (32 * rpc)) by (nonlinear_arith)
                requires
                    raw@.len() == cl@.len() * self.geo.bytes_per_cluster,
                    self.geo.bytes_per_cluster == 32 * rpc,
            ;
            assert(raw@.len() == (cl@.len() * rpc) * 32 + 0) by (nonlinear_arith)
                requires
                    raw@.len() == cl@.len() * (32 * rpc),
            ;
            lemma_fundamental_div_mod_converse_div(raw@.len() as int, 32, (cl@.len() * rpc) as int, 0);
            lemma_fundamental_div_mod_converse_mod(raw@.len() as int, 32, (cl@.len() * rpc) as int, 0);
        }
        let mut out: Vec<crate::finfo::Finfo> = Vec::new();
        let mut run: Vec<u8> = Vec::new();
        let ghost mut s: int = 0;
        let mut t: usize = 0;
        while t < total
            invariant
                rawv == raw@,
                chain(self.disk(), self.geo, self.kind, first, self.geo.cluster_count as nat) == Some(cl@),
                rawv == flat(self.disk(), self.geo, cl@),
                raw@.len() <= usize::MAX,
                total == raw@.len() / 32,
                raw@.len() % 32 == 0,
                total == cl@.len() * rpc,
                rpc > 0,
                rpc == self.geo.bytes_per_cluster / 32,
                t <= total,
                fat32_scan(rawv, t as nat).1 == s,
                !fat32_scan(rawv, t as nat).2,
                0 <= s <= t,
                run@ == rawv.subrange(32 * s, 32 * t),
                runs_listed(out@, rawv, fat32_scan(rawv, t as nat).0, cl@, rpc as int),
            decreases total - t,
        {
            if raw[32 * t] == 0 && raw[32 * t + 11] != fat32::ATTR_LONG_FILE_NAME {
                proof {
                    assert(fat32_scan(rawv, (t + 1) as nat).2);
                    lemma_fat32_scan_ended(rawv, (t + 1) as nat, total as nat);
                    assert(fat32_scan(rawv, total as nat).0 == fat32_scan(rawv, t as nat).0);
                }
                return Ok(out);
            }
            let mut rec = crate::codec::copy_bytes(raw.as_slice(), 32 * t, 32);
            run.append(&mut rec);
            assert(run@ =~= rawv.subrange(32 * s, 32 * (t + 1)));
            if raw[32 * t + 11] != fat32::ATTR_LONG_FILE_NAME {
                proof {
                    assert(fat32::run_sfn(run@) =~= record(rawv, t as int));
                    assert((t as int) / (rpc as int) < cl@.len()) by (nonlinear_arith)
                        requires
                            t < total,
                            total == cl@.len() * rpc,
                            rpc > 0,
                    ;
                }
                let clus = cl[t / rpc];
                let idx = (t % rpc) as u32;
                push_run(&mut out, &run, clus, idx, Ghost(rawv), Ghost(fat32_scan(rawv, t as nat).0), Ghost(s), Ghost(t as int), Ghost(cl@), Ghost(rpc as int));
                run.clear();
                proof {
                    s = t + 1;
                    assert(run@ =~= rawv.subrange(32 * s, 32 * (t + 1)));
                }
            }
            t += 1;
        }
        Ok(out)
    }

    /// Lists an exFAT directory whose first cluster is `first`.
    #[verifier::rlimit(80)]
    pub fn list_exfat(&self, first: u32) -> (r: Result<Vec<crate::finfo::Finfo>, FsError>)
        requires
            self.wf(),
            self.kind == FsType::Exfat,
        ensures
            r matches Err(e) ==> dir_error(self.disk(), self.geo, self.kind, first, e),
            !in_range(self.geo, first as int) ==> r == Err::<Vec<crate::finfo::Finfo>, FsError>(
                FsError::ClusterOutOfRange,
            ),
            r matches Ok(v) ==> (chain(self.disk(), self.geo, self.kind, first, self.geo.cluster_count as nat) matches Some(cl)
                && !exfat_scan(flat(self.disk(), self.geo, cl), (flat(self.disk(), self.geo, cl).len() / 32) as nat).3
                && exfat_listed(v@, flat(self.disk(), self.geo, cl), cl, (self.geo.bytes_per_cluster / 32) as int)),
            chain(self.disk(), self.geo, self.kind, first, self.geo.cluster_count as nat) is None ==> r is Err,
            (chain(self.disk(), self.geo, self.kind, first, self.geo.cluster_count as nat) matches Some(cl)
                && exfat_scan(flat(self.disk(), self.geo, cl), (flat(self.disk(), self.geo, cl).len() / 32) as nat).3)
                ==> r is Err,
    {
        let (cl, raw) = self.read_dir(first)?;
        let ghost rawv = raw@;
        let rpc: usize = (self.geo.bytes_per_cluster / 32) as usize;
        let total: usize = raw.len() / 32;
        proof {
            assert(raw@.len() == cl@.len() * (32 * rpc)) by (nonlinear_arith)
                requires
                    raw@.len() == cl@.len() * self.geo.bytes_per_cluster,
                    self.geo.bytes_per_cluster == 32 * rpc,
            ;
            assert(raw@.len() == (cl@.len() * rpc) * 32 + 0) by (nonlinear_arith)
                requires
                    raw@.len() == cl@.len() * (32 * rpc),
            ;
            lemma_fundamental_div_mod_converse_div(raw@.len() as int, 32, (cl@.len() * rpc) as int, 0);
            lemma_fundamental_div_mod_converse_mod(raw@.len() as int, 32, (cl@.len() * rpc) as int, 0);
        }
        let mut out: Vec<crate::finfo::Finfo> = Vec::new();
        let mut pending: Vec<u8> = Vec::new();
        let mut pc: u32 = 0;
        let mut pi: u32 = 0;
        let mut t: usize = 0;
        while t < total
            invariant
                self.kind == FsType::Exfat,
                rawv == raw@,
                chain(self.disk(), self.geo, self.kind, first, self.geo.cluster_count as nat) == Some(cl@),
                rawv == flat(self.disk(), self.geo, cl@),
                raw@.len() <= usize::MAX,
                total == raw@.len() / 32,
                raw@.len() % 32 == 0,
                total == cl@.len() * rpc,
                rpc > 0,
                rpc == self.geo.bytes_per_cluster / 32,
                t <= total,
                !exfat_scan(rawv, t as nat).2,
                !exfat_scan(rawv, t as nat).3,
                pending@ == gather(rawv, exfat_scan(rawv, t as nat).1),
                exfat_scan(rawv, t as nat).1.len() > 0 ==> pc == cl@[exfat_scan(rawv, t as nat).1[0] / rpc as int]
                    && pi == (exfat_scan(rawv, t as nat).1[0] % rpc as int) as u32,
                forall|j: int| 0 <= j < exfat_scan(rawv, t as nat).1.len() ==> 0 <= #[trigger] exfat_scan(rawv, t as nat).1[j] < t,
                sets_listed(out@, rawv, exfat_scan(rawv, t as nat).0, cl@, rpc as int),
            decreases total - t,
        {
            let b = raw[32 * t];
            let typ = match exfat::Type::new(b) {
                Ok(ty) => ty,
                Err(_) => {
                    proof {
                        assert(exfat_scan(rawv, (t + 1) as nat).3);
                        lemma_exfat_scan_stopped(rawv, (t + 1) as nat, total as nat);
                    }
                    return Err(FsError::UndefinedEntry(b));
                },
            };
            if typ == exfat::Type::FinalUnused {
                proof {
                    lemma_exfat_scan_stopped(rawv, (t + 1) as nat, total as nat);
                    lemma_gather_len(rawv, exfat_scan(rawv, t as nat).1);
                }
                push_set(&mut out, &pending, pc, pi, Ghost(rawv), Ghost(exfat_scan(rawv, t as nat).0), Ghost(exfat_scan(rawv, t as nat).1), Ghost(cl@), Ghost(rpc as int));
                return Ok(out);
            }
            if typ == exfat::Type::FileOrDir {
                proof {
                    lemma_gather_len(rawv, exfat_scan(rawv, t as nat).1);
                }
                push_set(&mut out, &pending, pc, pi, Ghost(rawv), Ghost(exfat_scan(rawv, t as nat).0), Ghost(exfat_scan(rawv, t as nat).1), Ghost(cl@), Ghost(rpc as int));
                proof {
                    assert((t as int) / (rpc as int) < cl@.len()) by (nonlinear_arith)
                        requires
                            t < total,
                            total == cl@.len() * rpc,
                            rpc > 0,
                    ;
                }
                pc = cl[t / rpc];
                pi = (t % rpc) as u32;
                pending = crate::codec::copy_bytes(raw.as_slice(), 32 * t, 32);
                proof {
                    let fresh = seq![t as int];
                    assert(fresh.drop_last() =~= Seq::<int>::empty());
                    assert(gather(rawv, Seq::<int>::empty()) =~= Seq::<u8>::empty());
                    assert(pending@ =~= gather(rawv, fresh));
                }
            } else if typ == exfat::Type::StreamExt || typ == exfat::Type::FileName {
                if pending.len() == 0 {
                    proof {
                        assert((t as int) / (rpc as int) < cl@.len()) by (nonlinear_arith)
                            requires
                                t < total,
                                total == cl@.len() * rpc,
                                rpc > 0,
                        ;
                        lemma_gather_len(rawv, exfat_scan(rawv, t as nat).1);
                    }
                    pc = cl[t / rpc];
                    pi = (t % rpc) as u32;
                }
                let mut rec = crate::codec::copy_bytes(raw.as_slice(), 32 * t, 32);
                pending.append(&mut rec);
                proof {
                    let before = exfat_scan(rawv, t as nat).1;
                    assert(before.push(t as int).drop_last() =~= before);
                    assert(pending@ =~= gather(rawv, before.push(t as int)));
                }
            }
            t += 1;
        }
        proof {
            lemma_gather_len(rawv, exfat_scan(rawv, t as nat).1);
        }
        push_set(&mut out, &pending, pc, pi, Ghost(rawv), Ghost(exfat_scan(rawv, t as nat).0), Ghost(exfat_scan(rawv, t as nat).1), Ghost(cl@), Ghost(rpc as int));
        Ok(out)
    }
}

/// `v` holds, in order, the file-infos of the runs `o` of the records `raw`,
/// read from the clusters `cl` of `rpc` records each.
pub open spec fn runs_listed(v: Seq<crate::finfo::Finfo>, raw: Seq<u8>, o: Seq<(int, int)>, cl: Seq<u32>, rpc: int) -> bool {
    &&& v.len() == o.len()
    &&& forall|k: int|
        0 <= k < v.len() ==> fat32::run_info(
            #[trigger] v[k],
            raw.subrange(32 * o[k].0, 32 * o[k].1 + 32),
            cl[o[k].1 / rpc],
            (o[k].1 % rpc) as u32,
        )
}

/// Appends the file-info of the run that the short entry at record `t` closes,
/// where it names a file.
fn push_run(
    out: &mut Vec<crate::finfo::Finfo>,
    run: &Vec<u8>,
    clus: u32,
    idx: u32,
    raw: Ghost<Seq<u8>>,
    o: Ghost<Seq<(int, int)>>,
    s: Ghost<int>,
    t: Ghost<int>,
    cl: Ghost<Seq<u32>>,
    rpc: Ghost<int>,
)
    requires
        runs_listed(old(out)@, raw@, o@, cl@, rpc@),
        0 <= s@ <= t@,
        32 * t@ + 32 <= raw@.len(),
        run@ == raw@.subrange(32 * s@, 32 * t@ + 32),
        fat32::run_sfn(run@) == record(raw@, t@),
        run@[32 * (t@ - s@) + 11] != fat32::ATTR_LONG_FILE_NAME,
        clus == cl@[t@ / rpc@],
        idx == (t@ % rpc@) as u32,
    ensures
        runs_listed(final(out)@, raw@, if fat32::sfn_skipped(record(raw@, t@)) { o@ } else { o@.push((s@, t@)) }, cl@, rpc@),
{
    proof {
        assert(run@.len() == 32 * (t@ - s@) + 32);
        assert(fat32::run_sfn(run@) =~= run@.subrange(32 * (t@ - s@), 32 * (t@ - s@) + 32));
    }
    match fat32::reduce(run.as_slice(), clus, idx) {
        Some(f) => {
            out.push(f);
            proof {
                let o2 = o@.push((s@, t@));
                assert forall|k: int| 0 <= k < out@.len() implies fat32::run_info(
                    #[trigger] out@[k],
                    raw@.subrange(32 * o2[k].0, 32 * o2[k].1 + 32),
                    cl@[o2[k].1 / rpc@],
                    (o2[k].1 % rpc@) as u32,
                ) by {
                    if k < o@.len() {
                        assert(out@[k] == old(out)@[k]);
                        assert(o2[k] == o@[k]);
                    }
                }
            }
        },
        None => {},
    }
}

/// `v` holds, in order, the file-infos of the entry sets `sets` of the records
/// `raw`, read from the clusters `cl` of `rpc` records each.
pub open spec fn sets_listed(v: Seq<crate::finfo::Finfo>, raw: Seq<u8>, sets: Seq<Seq<int>>, cl: Seq<u32>, rpc: int) -> bool {
    &&& v.len() == sets.len()
    &&& forall|k: int|
        0 <= k < v.len() ==> exfat::set_info(
            #[trigger] v[k],
            gather(raw, sets[k]),
            cl[sets[k][0] / rpc],
            (sets[k][0] % rpc) as u32,
        )
}

/// Appends the file-info of the pending entry set, where it reduces.
fn push_set(
    out: &mut Vec<crate::finfo::Finfo>,
    pending: &Vec<u8>,
    pc: u32,
    pi: u32,
    raw: Ghost<Seq<u8>>,
    sets: Ghost<Seq<Seq<int>>>,
    pend: Ghost<Seq<int>>,
    cl: Ghost<Seq<u32>>,
    rpc: Ghost<int>,
)
    requires
        sets_listed(old(out)@, raw@, sets@, cl@, rpc@),
        pending@ == gather(raw@, pend@),
        pending@.len() % 32 == 0,
        pend@.len() > 0 ==> pc == cl@[pend@[0] / rpc@] && pi == (pend@[0] % rpc@) as u32,
        pend@.len() == 0 <==> pending@.len() == 0,
    ensures
        sets_listed(final(out)@, raw@, exfat_flush(raw@, sets@, pend@), cl@, rpc@),
{
    if pending.len() > 0 {
        match exfat::reduce(pending.as_slice(), pc, pi) {
            Ok(f) => {
                out.push(f);
                proof {
                    let s2 = sets@.push(pend@);
                    assert forall|k: int| 0 <= k < out@.len() implies exfat::set_info(
                        #[trigger] out@[k],
                        gather(raw@, s2[k]),
                        cl@[s2[k][0] / rpc@],
                        (s2[k][0] % rpc@) as u32,
                    ) by {
                        if k < sets@.len() {
                            assert(out@[k] == old(out)@[k]);
                            assert(s2[k] == sets@[k]);
                        }
                    }
                }
            },
            Err(_) => {},
        }
    }
}

proof fn lemma_gather_len(raw: Seq<u8>, idx: Seq<int>)
    requires
        forall|j: int| 0 <= j < idx.len() ==> 0 <= #[trigger] idx[j] && 32 * idx[j] + 32 <= raw.len(),
    ensures
        gather(raw, idx).len() == 32 * idx.len(),
        gather(raw, idx).len() % 32 == 0,
    decreases idx.len(),
{
    if idx.len() > 0 {
        lemma_gather_len(raw, idx.drop_last());
    }
}

} // verus!

//! FAT32 on-disk structures: the boot sector, FAT entries and 32-byte
//! directory records, and the pairing of long-name fragments with their short entry.
use vstd::prelude::*;
use crate::codec::{le16, le32, read_u16, read_u16_units, le16_units, read_u32, copy_bytes, rot_add};
use crate::error::FsError;
use crate::finfo::{Finfo, entry_id, make_id};
use vstd::utf8::{valid_utf8, decode_utf8};
use crate::text::{trim_end_of, utf8_string, trim_end, utf16_lossy, lower_of, until_nul, decode_name, decode_utf16, lowercase};
use crate::time::{Timestamp, fat_time_local, fat_valid};

verus! {

pub type ClusNo = u32;

/// The boot sector fields that the driver reads.
#[derive(Debug, Clone, Copy)]
pub struct BootSec {
    pub bpb_byts_per_sec: u16,
    pub bpb_sec_per_clus: u8,
    pub bpb_rsvd_sec_cnt: u16,
    pub bpb_num_fats: u8,
    pub bpb_root_ent_cnt: u16,
    pub bpb_tot_sec_16: u16,
    pub bpb_media: u8,
    pub bpb_fat_sz_16: u16,
    pub bpb_tot_sec_32: u32,
    pub bpb_fat_sz_32: u32,
    pub bpb_fs_ver: u16,
    pub bpb_root_clus: u32,
    pub bpb_fs_info: u16,
    pub bpb_bk_boot_sec: u16,
    pub bs_boot_sig: u8,
    pub bs_boot_sign: u16,
}

/// `bs` holds the fields stored in the sector `b`.
pub open spec fn boot_sec_of(bs: BootSec, b: Seq<u8>) -> bool {
    &&& bs.bpb_byts_per_sec == le16(b, 11)
    &&& bs.bpb_sec_per_clus == b[13]
    &&& bs.bpb_rsvd_sec_cnt == le16(b, 14)
    &&& bs.bpb_num_fats == b[16]
    &&& bs.bpb_root_ent_cnt == le16(b, 17)
    &&& bs.bpb_tot_sec_16 == le16(b, 19)
    &&& bs.bpb_media == b[21]
    &&& bs.bpb_fat_sz_16 == le16(b, 22)
    &&& bs.bpb_tot_sec_32 == le32(b, 32)
    &&& bs.bpb_fat_sz_32 == le32(b, 36)
    &&& bs.bpb_fs_ver == le16(b, 42)
    &&& bs.bpb_root_clus == le32(b, 44)
    &&& bs.bpb_fs_info == le16(b, 48)
    &&& bs.bpb_bk_boot_sec == le16(b, 50)
    &&& bs.bs_boot_sig == b[66]
    &&& bs.bs_boot_sign == le16(b, 510)
}

impl BootSec {
    /// Decodes the first sector of a volume; fails on fewer than 512 bytes.
    pub fn new(buf: &[u8]) -> (r: Result<BootSec, FsError>)
        ensures
            buf@.len() < 512 <==> r is Err,
            r matches Ok(bs) ==> boot_sec_of(bs, buf@),
            r matches Err(e) ==> e == FsError::InvalidBootSector,
    {
        if buf.len() < 512 {
            return Err(FsError::InvalidBootSector);
        }
        Ok(BootSec {
            bpb_byts_per_sec: read_u16(buf, 11),
            bpb_sec_per_clus: buf[13],
            bpb_rsvd_sec_cnt: read_u16(buf, 14),
            bpb_num_fats: buf[16],
            bpb_root_ent_cnt: read_u16(buf, 17),
            bpb_tot_sec_16: read_u16(buf, 19),
            bpb_media: buf[21],
            bpb_fat_sz_16: read_u16(buf, 22),
            bpb_tot_sec_32: read_u32(buf, 32),
            bpb_fat_sz_32: read_u32(buf, 36),
            bpb_fs_ver: read_u16(buf, 42),
            bpb_root_clus: read_u32(buf, 44),
            bpb_fs_info: read_u16(buf, 48),
            bpb_bk_boot_sec: read_u16(buf, 50),
            bs_boot_sig: buf[66],
            bs_boot_sign: read_u16(buf, 510),
        })
    }

    pub open spec fn spec_data_start(&self) -> int {
        self.bpb_rsvd_sec_cnt + self.bpb_fat_sz_32 * self.bpb_num_fats
    }

    pub open spec fn spec_data_sectors(&self) -> int {
        if self.bpb_tot_sec_32 >= self.spec_data_start() {
            self.bpb_tot_sec_32 - self.spec_data_start()
        } else {
            0
        }
    }

    /// The first sector of the first FAT.
    pub fn fat_start_sector(&self) -> (r: u16)
        ensures
            r == self.bpb_rsvd_sec_cnt,
    {
        self.bpb_rsvd_sec_cnt
    }

    /// The sectors taken by all FATs together.
    pub fn fat_sectors(&self) -> (r: u64)
        ensures
            r == self.bpb_fat_sz_32 * self.bpb_num_fats,
            r <= 0xFFFF_FFFF * 0xFF,
    {
        proof {
            assert(self.bpb_fat_sz_32 * self.bpb_num_fats <= 0xFFFF_FFFF * 0xFF) by (nonlinear_arith);
        }
        (self.bpb_fat_sz_32 as u64) * (self.bpb_num_fats as u64)
    }

    /// The first sector of the data region (cluster 2).
    pub fn data_start_sector(&self) -> (r: u64)
        ensures
            r == self.spec_data_start(),
    {
        self.fat_start_sector() as u64 + self.fat_sectors()
    }

    /// The sectors of the data region; zero where the FATs overrun the volume.
    pub fn data_sectors(&self) -> (r: u64)
        ensures
            r == self.spec_data_sectors(),
    {
        let start = self.data_start_sector();
        if self.bpb_tot_sec_32 as u64 >= start {
            self.bpb_tot_sec_32 as u64 - start
        } else {
            0
        }
    }

    /// Bytes per cluster.
    pub fn cluster_size(&self) -> (r: u32)
        ensures
            r == self.bpb_byts_per_sec * self.bpb_sec_per_clus,
    {
        proof {
            assert(self.bpb_byts_per_sec * self.bpb_sec_per_clus <= 0xFFFF * 0xFF) by (nonlinear_arith);
        }
        (self.bpb_byts_per_sec as u32) * (self.bpb_sec_per_clus as u32)
    }

    pub open spec fn spec_check(&self) -> bool {
        &&& self.bs_boot_sign == 0xAA55
        &&& self.bpb_sec_per_clus != 0
        &&& self.spec_data_sectors() / (self.bpb_sec_per_clus as int) >= 65526
        &&& self.bpb_byts_per_sec == 512
        &&& self.bpb_num_fats == 2
    }

    /// Whether this boot sector describes a volume the driver supports: the
    /// signature word, at least 65,526 clusters, 512-byte sectors and two FATs.
    pub fn check_fat32(&self) -> (r: bool)
        ensures
            r == self.spec_check(),
    {
        if self.bs_boot_sign != 0xAA55 || self.bpb_sec_per_clus == 0 {
            return false;
        }
        let clusters = self.data_sectors() / (self.bpb_sec_per_clus as u64);
        clusters >= 65526 && self.bpb_byts_per_sec == 512 && self.bpb_num_fats == 2
    }
}

/// A classified FAT32 table entry.
#[derive(Debug, Clone, Copy, PartialEq, Eq, Structural)]
pub enum FatEnt {
    Eoc,
    Bad,
    Unused,
    Reserved,
    Next(ClusNo),
}

/// The class of a 32-bit FAT32 entry; its top four bits are reserved and ignored.
pub open spec fn fat_ent_of(raw: int) -> FatEnt {
    let v = raw % 0x1000_0000;
    if v == 0 {
        FatEnt::Unused
    } else if v == 1 {
        FatEnt::Reserved
    } else if v >= 0x0FFF_FFF8 {
        FatEnt::Eoc
    } else if v == 0x0FFF_FFF7 {
        FatEnt::Bad
    } else {
        FatEnt::Next(v as u32)
    }
}

impl FatEnt {
    /// Classifies the little-endian entry at the start of `buf`.
    pub fn new(buf: &[u8]) -> (r: FatEnt)
        requires
            buf@.len() >= 4,
        ensures
            r == fat_ent_of(le32(buf@, 0)),
    {
        let v = read_u32(buf, 0) % 0x1000_0000;
        if v == 0 {
            FatEnt::Unused
        } else if v == 1 {
            FatEnt::Reserved
        } else if v >= 0x0FFF_FFF8 {
            FatEnt::Eoc
        } else if v == 0x0FFF_FFF7 {
            FatEnt::Bad
        } else {
            FatEnt::Next(v)
        }
    }
}

/// A FAT date: years since 1980, month and day.
#[derive(Debug, Clone, Copy, PartialEq, Eq, Structural)]
pub struct Date {
    pub year: u8,
    pub month: u8,
    pub day: u8,
}

impl Date {
    pub fn new(val: u16) -> (r: Date)
        ensures
            r.year == val / 512,
            r.month == (val / 32) % 16,
            r.day == val % 32,
    {
        Date { year: (val / 512) as u8, month: ((val / 32) % 16) as u8, day: (val % 32) as u8 }
    }
}

/// A FAT time of day: hour, minute and two-second count.
#[derive(Debug, Clone, Copy, PartialEq, Eq, Structural)]
pub struct Time {
    pub hour: u8,
    pub minute: u8,
    pub second: u8,
}

impl Time {
    pub fn new(val: u16) -> (r: Time)
        ensures
            r.hour == val / 2048,
            r.minute == (val / 32) % 64,
            r.second == val % 32,
    {
        Time { hour: (val / 2048) as u8, minute: ((val / 32) % 64) as u8, second: (val % 32) as u8 }
    }
}

pub const ATTR_READ_ONLY: u8 = 0x01;
pub const ATTR_HIDDEN: u8 = 0x02;
pub const ATTR_SYSTEM: u8 = 0x04;
pub const ATTR_VOLUME_ID: u8 = 0x08;
pub const ATTR_DIRECTORY: u8 = 0x10;
pub const ATTR_ARCHIVE: u8 = 0x20;
pub const ATTR_LONG_FILE_NAME: u8 = 0x0F;
/// The NT-case flag: the base name is stored in upper case but shown in lower case.
pub const BODY_LOW_CASE: u8 = 0x08;

/// A short-name (8.3) directory record, with where it lies on disk.
#[derive(Debug, Clone)]
pub struct DirEntSfn {
    pub name: Vec<u8>,
    pub attr: u8,
    pub nt_res: u8,
    pub crt_time_tenth: u8,
    pub crt_time: u16,
    pub crt_date: u16,
    pub lst_acc_date: u16,
    pub fst_clus_hi: u16,
    pub wrt_time: u16,
    pub wrt_date: u16,
    pub fst_clus_lo: u16,
    pub file_size: u32,
    /// The cluster holding this record.
    pub clus_no: ClusNo,
    /// The index of this record within its cluster.
    pub off: u32,
}

/// A long-name fragment record.
#[derive(Debug, Clone)]
pub struct DirEntLfn {
    pub ord: u8,
    /// The thirteen name code units of the fragment, in order.
    pub units: Vec<u16>,
    pub attr: u8,
    pub typ: u8,
    pub chksum: u8,
    pub fst_clus_lo: u16,
}

/// A decoded FAT32 directory record.
#[derive(Debug, Clone)]
pub enum DirEnt {
    Sfn(DirEntSfn),
    Lfn(DirEntLfn),
}

/// `e` holds the short-entry fields of record `b`, found at `(clus, off)`.
pub open spec fn sfn_of(e: DirEntSfn, b: Seq<u8>, clus: u32, off: u32) -> bool {
    &&& e.name@ == b.take(11)
    &&& e.attr == b[11]
    &&& e.nt_res == b[12]
    &&& e.crt_time_tenth == b[13]
    &&& e.crt_time == le16(b, 14)
    &&& e.crt_date == le16(b, 16)
    &&& e.lst_acc_date == le16(b, 18)
    &&& e.fst_clus_hi == le16(b, 20)
    &&& e.wrt_time == le16(b, 22)
    &&& e.wrt_date == le16(b, 24)
    &&& e.fst_clus_lo == le16(b, 26)
    &&& e.file_size == le32(b, 28)
    &&& e.clus_no == clus
    &&& e.off == off
}

/// `e` holds the long-name fragment fields of record `b`.
pub open spec fn lfn_of(e: DirEntLfn, b: Seq<u8>) -> bool {
    &&& e.ord == b[0]
    &&& e.units@ == le16_units(b, 1, 5) + le16_units(b, 14, 6) + le16_units(b, 28, 2)
    &&& e.attr == b[11]
    &&& e.typ == b[12]
    &&& e.chksum == b[13]
    &&& e.fst_clus_lo == le16(b, 26)
}

impl DirEnt {
    /// The size of a directory record in bytes.
    pub const SZ: u32 = 32;

    /// Decodes the 32-byte record at the start of `buf`, which lies in cluster
    /// `clus_no` at index `offset`; the attribute byte 0x0F marks a long-name fragment.
    pub fn new(buf: &[u8], clus_no: ClusNo, offset: u32) -> (r: Result<DirEnt, FsError>)
        ensures
            buf@.len() < 32 <==> r is Err,
            r matches Ok(DirEnt::Lfn(e)) ==> buf@[11] == ATTR_LONG_FILE_NAME && lfn_of(e, buf@),
            r matches Ok(DirEnt::Sfn(e)) ==> buf@[11] != ATTR_LONG_FILE_NAME && sfn_of(
                e,
                buf@,
                clus_no,
                offset,
            ),
            r matches Err(e) ==> e == FsError::Io,
    {
        if buf.len() < 32 {
            return Err(FsError::Io);
        }
        let attr = buf[11];
        if attr == ATTR_LONG_FILE_NAME {
            let mut units = read_u16_units(buf, 1, 5);
            let mut u2 = read_u16_units(buf, 14, 6);
            let mut u3 = read_u16_units(buf, 28, 2);
            units.append(&mut u2);
            units.append(&mut u3);
            Ok(
                DirEnt::Lfn(
                    DirEntLfn {
                        ord: buf[0],
                        units,
                        attr,
                        typ: buf[12],
                        chksum: buf[13],
                        fst_clus_lo: read_u16(buf, 26),
                    },
                ),
            )
        } else {
            Ok(
                DirEnt::Sfn(
                    DirEntSfn {
                        name: copy_bytes(buf, 0, 11),
                        attr,
                        nt_res: buf[12],
                        crt_time_tenth: buf[13],
                        crt_time: read_u16(buf, 14),
                        crt_date: read_u16(buf, 16),
                        lst_acc_date: read_u16(buf, 18),
                        fst_clus_hi: read_u16(buf, 20),
                        wrt_time: read_u16(buf, 22),
                        wrt_date: read_u16(buf, 24),
                        fst_clus_lo: read_u16(buf, 26),
                        file_size: read_u32(buf, 28),
                        clus_no,
                        off: offset,
                    },
                ),
            )
        }
    }
}

/// The checksum of a short name over its first `n` bytes.
pub open spec fn sfn_checksum_upto(name: Seq<u8>, n: nat) -> int
    decreases n,
{
    if n == 0 {
        0
    } else {
        rot_add(sfn_checksum_upto(name, (n - 1) as nat), name[n - 1] as int, 256)
    }
}

/// The 8-bit rotate-add checksum of the 11-byte short name, which every long-name
/// fragment of the same file repeats.
pub open spec fn sfn_checksum(name: Seq<u8>) -> u8 {
    sfn_checksum_upto(name, 11) as u8
}

/// `s` without its trailing spaces.
pub open spec fn trim_end_spaces(s: Seq<u8>) -> Seq<u8>
    decreases s.len(),
{
    if s.len() > 0 && s.last() == 0x20 {
        trim_end_spaces(s.drop_last())
    } else {
        s
    }
}

/// `s` without any of its spaces.
pub open spec fn drop_spaces(s: Seq<u8>) -> Seq<u8>
    decreases s.len(),
{
    if s.len() == 0 {
        s
    } else if s.last() == 0x20 {
        drop_spaces(s.drop_last())
    } else {
        drop_spaces(s.drop_last()).push(s.last())
    }
}

/// The packed name with a leading 0x05 read as 0xE5.
pub open spec fn kanji_fixed(name: Seq<u8>) -> Seq<u8> {
    if name[0] == 0x05 {
        name.update(0, 0xE5)
    } else {
        name
    }
}

/// The 8.3 display bytes: the base without trailing spaces, then, where the
/// extension has any non-space byte, a dot and the extension without spaces.
pub open spec fn short_name(name: Seq<u8>) -> Seq<u8> {
    let n = kanji_fixed(name);
    let base = trim_end_spaces(n.take(8));
    let ext = drop_spaces(n.subrange(8, 11));
    if ext.len() == 0 {
        base
    } else {
        base.push(0x2E) + ext
    }
}

/// Bytes read as code points U+0000..U+00FF.
pub open spec fn widen(s: Seq<u8>) -> Seq<u16> {
    Seq::new(s.len(), |i: int| s[i] as u16)
}

/// The name shown for a short entry: its 8.3 form, lower-cased when the NT-case
/// flag asks for it.
pub open spec fn sfn_display(name: Seq<u8>, nt_res: u8) -> Seq<char> {
    let t = utf16_lossy(widen(short_name(name)));
    if nt_res & BODY_LOW_CASE != 0 {
        lower_of(t)
    } else {
        t
    }
}

fn widen_bytes(s: &Vec<u8>) -> (r: Vec<u16>)
    ensures
        r@ == widen(s@),
{
    let mut r: Vec<u16> = Vec::new();
    let mut i: usize = 0;
    while i < s.len()
        invariant
            i <= s@.len(),
            r@ == widen(s@.take(i as int)),
        decreases s@.len() - i,
    {
        r.push(s[i] as u16);
        i += 1;
        assert(r@ =~= widen(s@.take(i as int)));
    }
    assert(s@.take(s@.len() as int) =~= s@);
    r
}

impl DirEntSfn {
    pub open spec fn wf(&self) -> bool {
        self.name@.len() == 11
    }

    /// The checksum that the long-name fragments of this file carry.
    pub fn create_chksum(&self) -> (r: u8)
        requires
            self.wf(),
        ensures
            r == sfn_checksum(self.name@),
    {
        let mut sum: u8 = 0;
        let mut i: usize = 0;
        while i < 11
            invariant
                i <= 11,
                self.name@.len() == 11,
                sum == sfn_checksum_upto(self.name@, i as nat),
            decreases 11 - i,
        {
            let rot: u8 = sum / 2 + (sum % 2) * 128;
            sum = ((rot as u16 + self.name[i] as u16) % 256) as u8;
            i += 1;
        }
        sum
    }

    /// The 8.3 display name (see `sfn_display`).
    pub fn name(&self) -> (r: String)
        requires
            self.wf(),
        ensures
            r@ == sfn_display(self.name@, self.nt_res),
    {
        let ghost n = kanji_fixed(self.name@);
        let mut raw: Vec<u8> = Vec::new();
        let mut i: usize = 0;
        while i < 11
            invariant
                i <= 11,
                self.name@.len() == 11,
                n == kanji_fixed(self.name@),
                raw@ == n.take(i as int),
            decreases 11 - i,
        {
            if i == 0 && self.name[0] == 0x05 {
                raw.push(0xE5);
            } else {
                raw.push(self.name[i]);
            }
            i += 1;
            assert(raw@ =~= n.take(i as int));
        }
        // the base: the first eight bytes without trailing spaces
        let mut e: usize = 8;
        while e > 0 && raw[e - 1] == 0x20
            invariant
                e <= 8,
                raw@ == n.take(11),
                n.len() == 11,
                trim_end_spaces(n.take(8)) == trim_end_spaces(n.take(e as int)),
            decreases e,
        {
            assert(n.take(e as int).drop_last() =~= n.take(e - 1));
            e -= 1;
        }
        assert(trim_end_spaces(n.take(e as int)) == n.take(e as int));
        let mut shown: Vec<u8> = Vec::new();
        let mut k: usize = 0;
        while k < e
            invariant
                k <= e <= 8,
                raw@ == n.take(11),
                n.len() == 11,
                shown@ == n.take(k as int),
            decreases e - k,
        {
            shown.push(raw[k]);
            k += 1;
            assert(shown@ =~= n.take(k as int));
        }
        // the extension: bytes 8..11 without spaces
        let mut ext: Vec<u8> = Vec::new();
        let mut j: usize = 8;
        while j < 11
            invariant
                8 <= j <= 11,
                raw@ == n.take(11),
                n.len() == 11,
                ext@ == drop_spaces(n.subrange(8, j as int)),
            decreases 11 - j,
        {
            assert(n.subrange(8, j + 1).drop_last() =~= n.subrange(8, j as int));
            if raw[j] != 0x20 {
                ext.push(raw[j]);
            }
            j += 1;
        }
        let ghost base = shown@;
        if ext.len() > 0 {
            shown.push(0x2E);
            shown.append(&mut ext);
        }
        assert(shown@ =~= short_name(self.name@));
        let units = widen_bytes(&shown);
        let text = decode_utf16(units.as_slice());
        if self.nt_res & BODY_LOW_CASE != 0 {
            lowercase(text.as_str())
        } else {
            text
        }
    }

    /// The text of a volume-label entry: its eleven bytes as UTF-8 without
    /// trailing white space, or "ERROR" where they are not UTF-8.
    pub fn volume_label(&self) -> (r: String)
        ensures
            valid_utf8(self.name@) ==> r@ == trim_end_of(decode_utf8(self.name@)),
            !valid_utf8(self.name@) ==> r@ == "ERROR"@,
    {
        match utf8_string(self.name.clone()) {
            Some(text) => trim_end(text.as_str()),
            None => "ERROR".to_owned(),
        }
    }

    /// The first cluster of the file's data (0 for an empty file).
    pub fn fst_clus(&self) -> (r: u32)
        ensures
            r == self.fst_clus_hi * 0x1_0000 + self.fst_clus_lo,
    {
        (self.fst_clus_hi as u32) * 0x1_0000 + self.fst_clus_lo as u32
    }

    /// A deleted entry, or the end-of-directory sentinel.
    pub fn is_unused(&self) -> (r: bool)
        requires
            self.wf(),
        ensures
            r == (self.name@[0] == 0xE5 || self.name@[0] == 0),
    {
        self.name[0] == 0xE5 || self.is_end()
    }

    /// The end-of-directory sentinel.
    pub fn is_end(&self) -> (r: bool)
        requires
            self.wf(),
        ensures
            r == (self.name@[0] == 0),
    {
        self.name[0] == 0x00
    }

    pub fn is_rdonly(&self) -> (r: bool)
        ensures
            r == (self.attr & ATTR_READ_ONLY != 0),
    {
        self.attr & ATTR_READ_ONLY != 0
    }

    pub fn is_hidden(&self) -> (r: bool)
        ensures
            r == (self.attr & ATTR_HIDDEN != 0),
    {
        self.attr & ATTR_HIDDEN != 0
    }

    pub fn is_system(&self) -> (r: bool)
        ensures
            r == (self.attr & ATTR_SYSTEM != 0),
    {
        self.attr & ATTR_SYSTEM != 0
    }

    pub fn is_volumeid(&self) -> (r: bool)
        ensures
            r == (self.attr & ATTR_VOLUME_ID != 0),
    {
        self.attr & ATTR_VOLUME_ID != 0
    }

    pub fn is_dir(&self) -> (r: bool)
        ensures
            r == (self.attr & ATTR_DIRECTORY != 0),
    {
        self.attr & ATTR_DIRECTORY != 0
    }

    pub fn is_archive(&self) -> (r: bool)
        ensures
            r == (self.attr & ATTR_ARCHIVE != 0),
    {
        self.attr & ATTR_ARCHIVE != 0
    }

    /// The last-write instant, read in the machine's time zone; the Unix epoch
    /// where the fields name no valid date and time.
    pub fn wrt_time(&self) -> (r: Timestamp)
        ensures
            !fat_valid(self.wrt_date, self.wrt_time) ==> r == Timestamp::epoch_spec(),
            r.nanos == 0,
    {
        match fat_time_local(self.wrt_date, self.wrt_time) {
            Some(t) => t,
            None => Timestamp::epoch(),
        }
    }

    /// The creation instant, refined by the hundredths byte, read in the
    /// machine's time zone; the Unix epoch where the fields name no valid date and
    /// time.
    pub fn crt_time(&self) -> (r: Timestamp)
        ensures
            !fat_valid(self.crt_date, self.crt_time) ==> r == Timestamp::epoch_spec(),
            r.nanos < 1_000_000_000,
    {
        match fat_time_local(self.crt_date, self.crt_time) {
            Some(t) => if t.secs < i64::MAX - 3 {
                t.plus_centis(self.crt_time_tenth)
            } else {
                t
            },
            None => Timestamp::epoch(),
        }
    }

    /// The last-access day, at midnight in the machine's time zone; the Unix
    /// epoch where the date is not valid.
    pub fn last_acc_time(&self) -> (r: Timestamp)
        ensures
            !fat_valid(self.lst_acc_date, 0) ==> r == Timestamp::epoch_spec(),
            r.nanos == 0,
    {
        match fat_time_local(self.lst_acc_date, 0) {
            Some(t) => t,
            None => Timestamp::epoch(),
        }
    }
}

impl DirEntLfn {
    pub open spec fn wf(&self) -> bool {
        self.units@.len() == 13
    }

    /// The text of this fragment alone, up to its U+0000 terminator.
    pub fn name(&self) -> (r: String)
        ensures
            r@ == utf16_lossy(until_nul(self.units@)),
    {
        decode_name(self.units.as_slice())
    }

    /// Whether this is the fragment of highest ordinal (stored first on disk).
    pub fn is_last(&self) -> (r: bool)
        ensures
            r == (self.ord & 0x40 != 0),
    {
        self.ord & 0x40 != 0
    }

    /// The fragment's ordinal, 1 for the start of the name.
    pub fn ordno(&self) -> (r: u8)
        ensures
            r == self.ord % 64,
    {
        self.ord % 64
    }
}

/// Record `i` of a run of 32-byte records.
pub open spec fn record(run: Seq<u8>, i: int) -> Seq<u8> {
    run.subrange(32 * i, 32 * i + 32)
}

/// The thirteen name code units of the long-name fragment at record `i`.
pub open spec fn fragment_units(run: Seq<u8>, i: int) -> Seq<u16> {
    le16_units(run, 32 * i + 1, 5) + le16_units(run, 32 * i + 14, 6) + le16_units(
        run,
        32 * i + 28,
        2,
    )
}

/// The code units of the fragments at records `m - 1` down to `j`: disk order
/// puts the name's last piece first.
pub open spec fn fragments_from(run: Seq<u8>, j: int, m: int) -> Seq<u16>
    decreases m - j,
{
    if j >= m {
        Seq::empty()
    } else {
        fragments_from(run, j + 1, m) + fragment_units(run, j)
    }
}

/// The `m` fragments at the start of `run` form a long name for a short entry
/// of checksum `chksum`: there are 1 to 20 of them, the first carries the "last"
/// flag, each carries the checksum, and the ordinals fall from `m` to 1.
pub open spec fn lfn_valid(run: Seq<u8>, m: int, chksum: u8) -> bool {
    &&& 1 <= m <= 20
    &&& run[0] & 0x40 != 0
    &&& forall|i: int| 0 <= i < m ==> #[trigger] run[32 * i + 13] == chksum
    &&& forall|i: int| 0 <= i < m ==> #[trigger] run[32 * i] % 64 == m - i
}

/// The short entry that closes a run of records.
pub open spec fn run_sfn(run: Seq<u8>) -> Seq<u8> {
    record(run, run.len() / 32 - 1)
}

/// The name a run of fragments followed by a short entry gives: the long name
/// where the fragments are valid, else the short name.
pub open spec fn run_name(run: Seq<u8>) -> Seq<char> {
    let m = run.len() / 32 - 1;
    let sfn = run_sfn(run);
    if lfn_valid(run, m, sfn_checksum(sfn.take(11))) {
        utf16_lossy(until_nul(fragments_from(run, 0, m)))
    } else {
        sfn_display(sfn.take(11), sfn[12])
    }
}

/// A short entry record that names no file: deleted, end of directory, or a
/// volume label.
pub open spec fn sfn_skipped(sfn: Seq<u8>) -> bool {
    sfn[0] == 0xE5 || sfn[0] == 0 || sfn[11] & ATTR_VOLUME_ID != 0
}

/// What the file-info reduced from a run of records holds besides its times.
pub open spec fn run_info(f: Finfo, run: Seq<u8>, clus: u32, off: u32) -> bool {
    let sfn = run_sfn(run);
    &&& f.id == entry_id(clus, off)
    &&& f.name@ == run_name(run)
    &&& f.is_rdonly == (sfn[11] & ATTR_READ_ONLY != 0)
    &&& f.is_hidden == (sfn[11] & ATTR_HIDDEN != 0)
    &&& f.is_system == (sfn[11] & ATTR_SYSTEM != 0)
    &&& f.is_dir == (sfn[11] & ATTR_DIRECTORY != 0)
    &&& f.size == le32(sfn, 28)
    &&& f.fst_clus == le16(sfn, 20) * 0x1_0000 + le16(sfn, 26)
}

fn lfn_check(run: &[u8], m: usize, chksum: u8) -> (r: bool)
    requires
        32 * m + 32 <= run@.len(),
    ensures
        r == lfn_valid(run@, m as int, chksum),
{
    if m == 0 || m > 20 || run[0] & 0x40 == 0 {
        return false;
    }
    let mut i: usize = 0;
    while i < m
        invariant
            i <= m <= 20,
            32 * m + 32 <= run@.len(),
            forall|j: int| 0 <= j < i ==> #[trigger] run@[32 * j + 13] == chksum,
            forall|j: int| 0 <= j < i ==> #[trigger] run@[32 * j] % 64 == m - j,
        decreases m - i,
    {
        if run[32 * i + 13] != chksum || (run[32 * i] % 64) as usize != m - i {
            return false;
        }
        i += 1;
    }
    true
}

fn lfn_concat(run: &[u8], m: usize) -> (r: Vec<u16>)
    requires
        32 * m <= run@.len(),
    ensures
        r@ == fragments_from(run@, 0, m as int),
{
    let mut r: Vec<u16> = Vec::new();
    let mut i: usize = m;
    let len = run.len();
    while i > 0
        invariant
            i <= m,
            len == run@.len(),
            32 * m <= run@.len(),
            r@ == fragments_from(run@, i as int, m as int),
        decreases i,
    {
        i -= 1;
        let mut a = read_u16_units(run, 32 * i + 1, 5);
        let mut b = read_u16_units(run, 32 * i + 14, 6);
        let mut c = read_u16_units(run, 32 * i + 28, 2);
        r.append(&mut a);
        r.append(&mut b);
        r.append(&mut c);
        assert(r@ =~= fragments_from(run@, i as int, m as int));
    }
    r
}

/// Reduces a run of records, the long-name fragments met since the previous short
/// entry followed by the short entry that closes them, to the file-info of that
/// entry (which lies in cluster `clus` at index `off`). Deleted entries and volume
/// labels give no file.
pub fn reduce(run: &[u8], clus: u32, off: u32) -> (r: Option<Finfo>)
    requires
        run@.len() % 32 == 0,
        run@.len() >= 32,
        run_sfn(run@)[11] != ATTR_LONG_FILE_NAME,
    ensures
        r is None <==> sfn_skipped(run_sfn(run@)),
        r matches Some(f) ==> run_info(f, run@, clus, off),
{
    let k = run.len() / 32;
    let m = k - 1;
    let tail = run.split_at(32 * m).1;
    assert(tail@ =~= run_sfn(run@));
    let sfn = match DirEnt::new(tail, clus, off) {
        Ok(DirEnt::Sfn(e)) => e,
        _ => {
            return None;
        },
    };
    if sfn.is_unused() || sfn.is_volumeid() {
        return None;
    }
    let chksum = sfn.create_chksum();
    let name = if lfn_check(run, m, chksum) {
        let units = lfn_concat(run, m);
        decode_name(units.as_slice())
    } else {
        sfn.name()
    };
    Some(
        Finfo {
            id: make_id(clus, off),
            name,
            is_rdonly: sfn.is_rdonly(),
            is_hidden: sfn.is_hidden(),
            is_system: sfn.is_system(),
            is_dir: sfn.is_dir(),
            size: sfn.file_size as u64,
            fst_clus: sfn.fst_clus(),
            crt_time: sfn.crt_time(),
            wrt_time: sfn.wrt_time(),
            acc_time: sfn.last_acc_time(),
        },
    )
}

} // verus!

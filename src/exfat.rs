//! exFAT on-disk structures: the boot sector and its checksums, FAT entries,
//! 32-byte directory records and the reduction of an entry set to a file-info.
use vstd::prelude::*;
use vstd::arithmetic::power2::{pow2, lemma_pow2_unfold};
use crate::codec::{le16, le32, le64, le16_units, read_u16, read_u32, read_u64, read_u16_units, copy_bytes, rot_add};
use crate::finfo::{Finfo, entry_id, make_id};
use crate::text::{utf16_lossy, until_nul, decode_name};
use crate::time::{Timestamp, fat_instant, fat_time_at_offset, fat_valid, fat_fields_valid};

verus! {

/// Failures of decoding and reducing exFAT directory records.
#[derive(Debug, Clone, Copy, PartialEq, Eq, Structural)]
pub enum Error {
    /// A record buffer shorter than 32 bytes.
    ReadFailed,
    /// A record whose type byte is not defined.
    Undefined(u8),
    /// An entry set that is not one file entry, one stream extension and names.
    DirEntReductionFailed,
    /// An entry set whose checksum does not match its file entry.
    ChecksumMismatch,
}

/// The boot sector fields that the driver reads.
#[derive(Debug, Clone)]
pub struct BootSec {
    pub file_system_name: Vec<u8>,
    pub must_be_zero: Vec<u8>,
    pub partition_offset: u64,
    pub volumn_length: u64,
    pub fat_offset: u32,
    pub fat_length: u32,
    pub cluster_heap_offset: u32,
    pub cluster_count: u32,
    pub first_cluster_of_root_dir: u32,
    pub volumn_serial_number: u32,
    pub file_system_revision: [u8; 2],
    pub volumn_flags: u16,
    pub bytes_per_sector_shift: u8,
    pub sectors_per_cluster_shift: u8,
    pub number_of_fats: u8,
    pub drive_select: u8,
    pub percent_in_use: u8,
    pub boot_signature: u16,
}

/// `bs` holds the fields stored in the sector `b`.
pub open spec fn boot_sec_of(bs: BootSec, b: Seq<u8>) -> bool {
    &&& bs.file_system_name@ == b.subrange(3, 11)
    &&& bs.must_be_zero@ == b.subrange(11, 64)
    &&& bs.partition_offset == le64(b, 64)
    &&& bs.volumn_length == le64(b, 72)
    &&& bs.fat_offset == le32(b, 80)
    &&& bs.fat_length == le32(b, 84)
    &&& bs.cluster_heap_offset == le32(b, 88)
    &&& bs.cluster_count == le32(b, 92)
    &&& bs.first_cluster_of_root_dir == le32(b, 96)
    &&& bs.volumn_serial_number == le32(b, 100)
    &&& bs.file_system_revision@ == b.subrange(104, 106)
    &&& bs.volumn_flags == le16(b, 106)
    &&& bs.bytes_per_sector_shift == b[108]
    &&& bs.sectors_per_cluster_shift == b[109]
    &&& bs.number_of_fats == b[110]
    &&& bs.drive_select == b[111]
    &&& bs.percent_in_use == b[112]
    &&& bs.boot_signature == le16(b, 510)
}

/// The name an exFAT boot sector carries: "EXFAT" and three spaces.
pub open spec fn exfat_name() -> Seq<u8> {
    seq![0x45u8, 0x58, 0x46, 0x41, 0x54, 0x20, 0x20, 0x20]
}

/// 2 to the `n`, by doubling.
fn pow2_u32(n: u8) -> (r: u32)
    requires
        n < 32,
    ensures
        r == pow2(n as nat),
{
    let mut r: u32 = 1;
    let mut i: u8 = 0;
    proof {
        vstd::arithmetic::power2::lemma2_to64();
    }
    while i < n
        invariant
            i <= n < 32,
            r == pow2(i as nat),
        decreases n - i,
    {
        proof {
            lemma_pow2_unfold((i + 1) as nat);
            vstd::arithmetic::power2::lemma_pow2_strictly_increases(i as nat, 31);
            vstd::arithmetic::power2::lemma2_to64();
        }
        r = r * 2;
        i += 1;
    }
    r
}

impl BootSec {
    /// Decodes the first sector of a volume; fails on fewer than 512 bytes.
    pub fn new(buf: &[u8]) -> (r: Option<BootSec>)
        ensures
            buf@.len() < 512 <==> r is None,
            r matches Some(bs) ==> boot_sec_of(bs, buf@),
    {
        if buf.len() < 512 {
            return None;
        }
        let rev: [u8; 2] = [buf[104], buf[105]];
        assert(rev@ =~= buf@.subrange(104, 106));
        Some(
            BootSec {
                file_system_name: copy_bytes(buf, 3, 8),
                must_be_zero: copy_bytes(buf, 11, 53),
                partition_offset: read_u64(buf, 64),
                volumn_length: read_u64(buf, 72),
                fat_offset: read_u32(buf, 80),
                fat_length: read_u32(buf, 84),
                cluster_heap_offset: read_u32(buf, 88),
                cluster_count: read_u32(buf, 92),
                first_cluster_of_root_dir: read_u32(buf, 96),
                volumn_serial_number: read_u32(buf, 100),
                file_system_revision: rev,
                volumn_flags: read_u16(buf, 106),
                bytes_per_sector_shift: buf[108],
                sectors_per_cluster_shift: buf[109],
                number_of_fats: buf[110],
                drive_select: buf[111],
                percent_in_use: buf[112],
                boot_signature: read_u16(buf, 510),
            },
        )
    }

    pub open spec fn spec_valid(&self) -> bool {
        &&& self.file_system_name@ == exfat_name()
        &&& forall|i: int| 0 <= i < self.must_be_zero@.len() ==> self.must_be_zero@[i] == 0
        &&& self.boot_signature == 0xAA55
        &&& self.file_system_revision@[1] == 1
        &&& self.number_of_fats == 1
        &&& 9 <= self.bytes_per_sector_shift <= 12
        &&& self.sectors_per_cluster_shift <= 25 - self.bytes_per_sector_shift
    }

    /// Whether this boot sector describes a volume the driver supports.
    pub fn is_valid(&self) -> (r: bool)
        ensures
            r == self.spec_valid(),
    {
        if self.file_system_name.len() != 8 {
            return false;
        }
        let want: [u8; 8] = [0x45, 0x58, 0x46, 0x41, 0x54, 0x20, 0x20, 0x20];
        let mut i: usize = 0;
        while i < 8
            invariant
                i <= 8,
                self.file_system_name@.len() == 8,
                want@ == exfat_name(),
                forall|j: int| 0 <= j < i ==> self.file_system_name@[j] == exfat_name()[j],
            decreases 8 - i,
        {
            if self.file_system_name[i] != want[i] {
                return false;
            }
            i += 1;
        }
        assert(self.file_system_name@ =~= exfat_name());
        let mut k: usize = 0;
        while k < self.must_be_zero.len()
            invariant
                k <= self.must_be_zero@.len(),
                forall|j: int| 0 <= j < k ==> self.must_be_zero@[j] == 0,
            decreases self.must_be_zero@.len() - k,
        {
            if self.must_be_zero[k] != 0 {
                return false;
            }
            k += 1;
        }
        self.boot_signature == 0xAA55 && self.file_system_revision[1] == 1 && self.number_of_fats
            == 1 && 9 <= self.bytes_per_sector_shift && self.bytes_per_sector_shift <= 12
            && self.sectors_per_cluster_shift <= 25 - self.bytes_per_sector_shift
    }

    pub fn bytes_per_sec(&self) -> (r: u32)
        requires
            self.bytes_per_sector_shift < 32,
        ensures
            r == pow2(self.bytes_per_sector_shift as nat),
    {
        pow2_u32(self.bytes_per_sector_shift)
    }

    pub fn secs_per_clus(&self) -> (r: u32)
        requires
            self.sectors_per_cluster_shift < 32,
        ensures
            r == pow2(self.sectors_per_cluster_shift as nat),
    {
        pow2_u32(self.sectors_per_cluster_shift)
    }

    /// Bytes per cluster, at most 32 MiB on a valid volume.
    pub fn bytes_per_clus(&self) -> (r: u32)
        requires
            self.bytes_per_sector_shift + self.sectors_per_cluster_shift < 32,
        ensures
            r == pow2((self.bytes_per_sector_shift + self.sectors_per_cluster_shift) as nat),
    {
        pow2_u32(self.bytes_per_sector_shift + self.sectors_per_cluster_shift)
    }
}

/// The boot-region checksum over the first `n` bytes of `b`, skipping the
/// volume-flags (106, 107) and percent-in-use (112) bytes.
pub open spec fn boot_sum(b: Seq<u8>, n: nat) -> int
    decreases n,
{
    if n == 0 {
        0
    } else if n - 1 == 106 || n - 1 == 107 || n - 1 == 112 {
        boot_sum(b, (n - 1) as nat)
    } else {
        rot_add(boot_sum(b, (n - 1) as nat), b[n - 1] as int, 0x1_0000_0000)
    }
}

/// The 32-bit checksum of the eleven sectors of the main boot region.
pub fn boot_checksum(bytes: &[u8], bytes_per_sec: u16) -> (r: u32)
    requires
        bytes@.len() >= bytes_per_sec * 11,
    ensures
        r == boot_sum(bytes@, (bytes_per_sec * 11) as nat),
{
    let n: usize = bytes_per_sec as usize * 11;
    let mut sum: u32 = 0;
    let mut i: usize = 0;
    while i < n
        invariant
            i <= n,
            n == bytes_per_sec * 11,
            n <= bytes@.len(),
            sum == boot_sum(bytes@, i as nat),
        decreases n - i,
    {
        if i != 106 && i != 107 && i != 112 {
            let rot: u32 = sum / 2 + (sum % 2) * 0x8000_0000;
            sum = ((rot as u64 + bytes[i] as u64) % 0x1_0000_0000) as u32;
        }
        i += 1;
    }
    sum
}

/// The entry-set checksum over the first `n` bytes of `b`, skipping bytes 2 and 3
/// (where the file entry stores the checksum).
pub open spec fn set_sum(b: Seq<u8>, n: nat) -> int
    decreases n,
{
    if n == 0 {
        0
    } else if n - 1 == 2 || n - 1 == 3 {
        set_sum(b, (n - 1) as nat)
    } else {
        rot_add(set_sum(b, (n - 1) as nat), b[n - 1] as int, 0x1_0000)
    }
}

/// The 16-bit checksum of an entry set of `secondary_count + 1` records.
pub fn entset_checksum(bytes: &[u8], secondary_count: u8) -> (r: u16)
    requires
        bytes@.len() >= (secondary_count + 1) * 32,
    ensures
        r == set_sum(bytes@, ((secondary_count + 1) * 32) as nat),
{
    let n: usize = (secondary_count as usize + 1) * 32;
    let mut sum: u16 = 0;
    let mut i: usize = 0;
    while i < n
        invariant
            i <= n,
            n == (secondary_count + 1) * 32,
            n <= bytes@.len(),
            sum == set_sum(bytes@, i as nat),
        decreases n - i,
    {
        if i != 2 && i != 3 {
            let rot: u16 = sum / 2 + (sum % 2) * 0x8000;
            sum = ((rot as u32 + bytes[i] as u32) % 0x1_0000) as u16;
        }
        i += 1;
    }
    sum
}

/// A 32-bit exFAT timestamp unpacked: years since 1980, month, day, hour, minute
/// and two-second count.
#[derive(Debug, Clone, Copy, PartialEq, Eq, Structural)]
pub struct DateTime {
    pub year: u8,
    pub month: u8,
    pub day: u8,
    pub hour: u8,
    pub minute: u8,
    pub second: u8,
}

impl DateTime {
    pub fn new(val: u32) -> (r: DateTime)
        ensures
            r.year == val / 0x200_0000,
            r.month == (val / 0x20_0000) % 16,
            r.day == (val / 0x1_0000) % 32,
            r.hour == (val / 2048) % 32,
            r.minute == (val / 32) % 64,
            r.second == val % 32,
    {
        DateTime {
            year: (val / 0x200_0000) as u8,
            month: ((val / 0x20_0000) % 16) as u8,
            day: ((val / 0x1_0000) % 32) as u8,
            hour: ((val / 2048) % 32) as u8,
            minute: ((val / 32) % 64) as u8,
            second: (val % 32) as u8,
        }
    }
}

/// The kind of a directory record, from its type byte.
#[derive(Debug, Clone, Copy, PartialEq, Eq, Structural)]
pub enum Type {
    AllocBitmap,
    UpcaseTable,
    VolumnLabel,
    FileOrDir,
    StreamExt,
    FileName,
    Unused,
    FinalUnused,
}

/// The kind a type byte names; `None` for the undefined bytes of 0x80..=0xFF.
pub open spec fn type_of(b: u8) -> Option<Type> {
    if b == 0x81 {
        Some(Type::AllocBitmap)
    } else if b == 0x82 {
        Some(Type::UpcaseTable)
    } else if b == 0x83 {
        Some(Type::VolumnLabel)
    } else if b == 0x85 {
        Some(Type::FileOrDir)
    } else if b == 0xC0 {
        Some(Type::StreamExt)
    } else if b == 0xC1 {
        Some(Type::FileName)
    } else if 0x01 <= b <= 0x7F {
        Some(Type::Unused)
    } else if b == 0 {
        Some(Type::FinalUnused)
    } else {
        None
    }
}

impl Type {
    pub fn new(b: u8) -> (r: Result<Type, Error>)
        ensures
            r matches Ok(t) ==> type_of(b) == Some(t),
            r is Err ==> type_of(b) is None && r == Err::<Type, Error>(Error::Undefined(b)),
    {
        if b == 0x81 {
            Ok(Type::AllocBitmap)
        } else if b == 0x82 {
            Ok(Type::UpcaseTable)
        } else if b == 0x83 {
            Ok(Type::VolumnLabel)
        } else if b == 0x85 {
            Ok(Type::FileOrDir)
        } else if b == 0xC0 {
            Ok(Type::StreamExt)
        } else if b == 0xC1 {
            Ok(Type::FileName)
        } else if 0x01 <= b && b <= 0x7F {
            Ok(Type::Unused)
        } else if b == 0 {
            Ok(Type::FinalUnused)
        } else {
            Err(Error::Undefined(b))
        }
    }

    /// Whether a record of this kind is in use.
    pub fn in_use(&self) -> (r: bool)
        ensures
            r == !(*self == Type::Unused || *self == Type::FinalUnused),
    {
        !matches!(*self, Type::Unused | Type::FinalUnused)
    }
}

/// The allocation-bitmap record.
#[derive(Debug, Clone, Copy, PartialEq, Eq, Structural)]
pub struct AllocBitmap {
    pub bitmap_flags: u8,
    pub first_cluster: u32,
    pub data_length: u64,
}

/// The up-case table record.
#[derive(Debug, Clone, Copy, PartialEq, Eq, Structural)]
pub struct UpcaseTable {
    pub table_checksum: u32,
    pub first_cluster: u32,
    pub data_length: u64,
}

/// The volume-label record.
#[derive(Debug, Clone)]
pub struct VolumnLabel {
    pub chars_cnt: u8,
    pub volumn_label: Vec<u16>,
}

/// The file (primary) record of an entry set.
#[derive(Debug, Clone, Copy, PartialEq, Eq, Structural)]
pub struct FileOrDir {
    pub secondary_cnt: u8,
    pub set_checksum: u16,
    pub file_attributes: u16,
    pub create_dt: u32,
    pub last_mod_dt: u32,
    pub last_acc_dt: u32,
    pub create_10ms_incr: u8,
    pub last_mod_10ms_incr: u8,
    pub create_tz_off: u8,
    pub last_mod_tz_off: u8,
    pub last_acc_tz_off: u8,
}

/// The stream-extension record of an entry set.
#[derive(Debug, Clone, Copy, PartialEq, Eq, Structural)]
pub struct StreamExt {
    pub gen_secondary_flags: u8,
    pub name_length: u8,
    pub name_hash: u16,
    pub valid_data_length: u64,
    pub first_cluster: u32,
    pub data_length: u64,
}

/// A file-name record: fifteen code units of the name.
#[derive(Debug, Clone)]
pub struct FileName {
    pub gen_secondary_flags: u8,
    pub filename: Vec<u16>,
}

pub open spec fn file_or_dir_of(e: FileOrDir, b: Seq<u8>) -> bool {
    &&& e.secondary_cnt == b[1]
    &&& e.set_checksum == le16(b, 2)
    &&& e.file_attributes == le16(b, 4)
    &&& e.create_dt == le32(b, 8)
    &&& e.last_mod_dt == le32(b, 12)
    &&& e.last_acc_dt == le32(b, 16)
    &&& e.create_10ms_incr == b[20]
    &&& e.last_mod_10ms_incr == b[21]
    &&& e.create_tz_off == b[22]
    &&& e.last_mod_tz_off == b[23]
    &&& e.last_acc_tz_off == b[24]
}

pub open spec fn stream_ext_of(e: StreamExt, b: Seq<u8>) -> bool {
    &&& e.gen_secondary_flags == b[1]
    &&& e.name_length == b[3]
    &&& e.name_hash == le16(b, 4)
    &&& e.valid_data_length == le64(b, 8)
    &&& e.first_cluster == le32(b, 20)
    &&& e.data_length == le64(b, 24)
}

fn decode_file_or_dir(b: &[u8]) -> (r: FileOrDir)
    requires
        b@.len() >= 32,
    ensures
        file_or_dir_of(r, b@),
{
    FileOrDir {
        secondary_cnt: b[1],
        set_checksum: read_u16(b, 2),
        file_attributes: read_u16(b, 4),
        create_dt: read_u32(b, 8),
        last_mod_dt: read_u32(b, 12),
        last_acc_dt: read_u32(b, 16),
        create_10ms_incr: b[20],
        last_mod_10ms_incr: b[21],
        create_tz_off: b[22],
        last_mod_tz_off: b[23],
        last_acc_tz_off: b[24],
    }
}

fn decode_stream_ext(b: &[u8]) -> (r: StreamExt)
    requires
        b@.len() >= 32,
    ensures
        stream_ext_of(r, b@),
{
    StreamExt {
        gen_secondary_flags: b[1],
        name_length: b[3],
        name_hash: read_u16(b, 4),
        valid_data_length: read_u64(b, 8),
        first_cluster: read_u32(b, 20),
        data_length: read_u64(b, 24),
    }
}

/// The UTC offset, in seconds, that a time-zone byte gives: with the high bit set,
/// the low seven bits count quarter hours as a 7-bit two's-complement number;
/// without it, UTC.
pub open spec fn tz_offset_secs(tz: u8) -> int {
    if tz >= 0x80 {
        let v = tz - 0x80;
        (if v < 0x40 {
            v
        } else {
            v - 0x80
        }) * 900
    } else {
        0
    }
}

/// The instant of a 32-bit timestamp with its time-zone byte and hundredths of a
/// second; the Unix epoch where the fields name no valid date and time.
pub open spec fn exfat_instant(dt: u32, tz: u8, centis: u8) -> Timestamp {
    let date = (dt / 0x1_0000) as u16;
    let time = (dt % 0x1_0000) as u16;
    let t = fat_instant(date, time, tz_offset_secs(tz));
    if fat_valid(date, time) && t.secs < i64::MAX - 3 {
        t.plus_centis_spec(centis)
    } else {
        t
    }
}

fn make_time(datetime: u32, tz_off: u8, centis: u8) -> (r: Timestamp)
    ensures
        r == exfat_instant(datetime, tz_off, centis),
{
    let offset: i32 = if tz_off >= 0x80 {
        let v = (tz_off - 0x80) as i32;
        if v < 0x40 {
            v * 900
        } else {
            (v - 0x80) * 900
        }
    } else {
        0
    };
    let date = (datetime / 0x1_0000) as u16;
    let time = (datetime % 0x1_0000) as u16;
    let t = fat_time_at_offset(date, time, offset);
    if fat_fields_valid(date, time) && t.secs < i64::MAX - 3 {
        t.plus_centis(centis)
    } else {
        t
    }
}

impl FileOrDir {
    pub fn is_rdonly(&self) -> (r: bool)
        ensures
            r == (self.file_attributes & 0x01 != 0),
    {
        self.file_attributes & 0x01 != 0
    }

    pub fn is_hidden(&self) -> (r: bool)
        ensures
            r == (self.file_attributes & 0x02 != 0),
    {
        self.file_attributes & 0x02 != 0
    }

    pub fn is_system(&self) -> (r: bool)
        ensures
            r == (self.file_attributes & 0x04 != 0),
    {
        self.file_attributes & 0x04 != 0
    }

    pub fn is_dir(&self) -> (r: bool)
        ensures
            r == (self.file_attributes & 0x10 != 0),
    {
        self.file_attributes & 0x10 != 0
    }

    pub fn is_archive(&self) -> (r: bool)
        ensures
            r == (self.file_attributes & 0x20 != 0),
    {
        self.file_attributes & 0x20 != 0
    }

    /// The creation instant.
    pub fn crt_time(&self) -> (r: Timestamp)
        ensures
            r == exfat_instant(self.create_dt, self.create_tz_off, self.create_10ms_incr),
    {
        make_time(self.create_dt, self.create_tz_off, self.create_10ms_incr)
    }

    /// The last-modification instant.
    pub fn mod_time(&self) -> (r: Timestamp)
        ensures
            r == exfat_instant(self.last_mod_dt, self.last_mod_tz_off, self.last_mod_10ms_incr),
    {
        make_time(self.last_mod_dt, self.last_mod_tz_off, self.last_mod_10ms_incr)
    }

    /// The last-access instant (two-second resolution).
    pub fn acc_time(&self) -> (r: Timestamp)
        ensures
            r == exfat_instant(self.last_acc_dt, self.last_acc_tz_off, 0),
    {
        make_time(self.last_acc_dt, self.last_acc_tz_off, 0)
    }
}

impl FileName {
    /// The text of this name record alone, up to its U+0000 terminator.
    pub fn name(&self) -> (r: String)
        ensures
            r@ == utf16_lossy(until_nul(self.filename@)),
    {
        decode_name(self.filename.as_slice())
    }
}

/// The records that make up an entry set, with where the file record lies.
#[derive(Debug)]
pub enum EntrySet {
    FileOrDir(FileOrDir, (u32, u32)),
    StreamExt(StreamExt),
    FileName(FileName),
}

impl EntrySet {
    pub fn is_primary(&self) -> (r: bool)
        ensures
            r == (self is FileOrDir),
    {
        matches!(*self, EntrySet::FileOrDir(..))
    }
}

/// `e` is the decoding of the record `b`, found in cluster `clusno` at index
/// `offset`.
pub open spec fn dirent_of(e: DirEnt, b: Seq<u8>, clusno: u32, offset: u32) -> bool {
    match e {
        DirEnt::AllocBitmap(a) => type_of(b[0]) == Some(Type::AllocBitmap)
            && a.bitmap_flags == b[1] && a.first_cluster == le32(b, 20)
            && a.data_length == le64(b, 24),
        DirEnt::UpcaseTable(u) => type_of(b[0]) == Some(Type::UpcaseTable)
            && u.table_checksum == le32(b, 4) && u.first_cluster == le32(b, 20)
            && u.data_length == le64(b, 24),
        DirEnt::VolumnLabel(v) => type_of(b[0]) == Some(Type::VolumnLabel)
            && v.chars_cnt == b[1] && v.volumn_label@ == le16_units(b, 2, 11),
        DirEnt::FileOrDir(f, pos) => type_of(b[0]) == Some(Type::FileOrDir)
            && file_or_dir_of(f, b) && pos == (clusno, offset),
        DirEnt::StreamExt(s) => type_of(b[0]) == Some(Type::StreamExt)
            && stream_ext_of(s, b),
        DirEnt::FileName(n) => type_of(b[0]) == Some(Type::FileName)
            && n.gen_secondary_flags == b[1] && n.filename@ == le16_units(b, 2, 15),
        DirEnt::Unused => type_of(b[0]) == Some(Type::Unused),
        DirEnt::FinalUnused => type_of(b[0]) == Some(Type::FinalUnused),
    }
}

/// A decoded exFAT directory record.
#[derive(Debug)]
pub enum DirEnt {
    AllocBitmap(AllocBitmap),
    UpcaseTable(UpcaseTable),
    VolumnLabel(VolumnLabel),
    FileOrDir(FileOrDir, (u32, u32)),
    StreamExt(StreamExt),
    FileName(FileName),
    Unused,
    FinalUnused,
}

impl DirEnt {
    /// The size of a directory record in bytes.
    pub const SZ: usize = 32;

    /// The record as a member of an entry set; `None` for the records that belong
    /// to no set.
    pub fn entry_set(self) -> (r: Option<EntrySet>)
        ensures
            match self {
                DirEnt::FileOrDir(f, p) => r matches Some(EntrySet::FileOrDir(g, q)) && g == f && q == p,
                DirEnt::StreamExt(s) => r matches Some(EntrySet::StreamExt(t)) && t == s,
                DirEnt::FileName(n) => r matches Some(EntrySet::FileName(m)) && m.filename@ == n.filename@
                    && m.gen_secondary_flags == n.gen_secondary_flags,
                _ => r is None,
            },
    {
        match self {
            DirEnt::FileOrDir(ent, pos) => Some(EntrySet::FileOrDir(ent, pos)),
            DirEnt::StreamExt(ent) => Some(EntrySet::StreamExt(ent)),
            DirEnt::FileName(ent) => Some(EntrySet::FileName(ent)),
            _ => None,
        }
    }

    /// Decodes the record at the start of `buf`, found in cluster `clusno` at
    /// index `offset`; its first byte gives its kind.
    pub fn new(buf: &[u8], clusno: u32, offset: u32) -> (r: Result<DirEnt, Error>)
        ensures
            buf@.len() < 32 ==> r == Err::<DirEnt, Error>(Error::ReadFailed),
            buf@.len() >= 32 && type_of(buf@[0]) is None ==> r == Err::<DirEnt, Error>(
                Error::Undefined(buf@[0]),
            ),
            buf@.len() >= 32 && type_of(buf@[0]) is Some ==> r is Ok,
            r matches Ok(e) ==> dirent_of(e, buf@, clusno, offset),
    {
        if buf.len() < 32 {
            return Err(Error::ReadFailed);
        }
        let typ = match Type::new(buf[0]) {
            Ok(t) => t,
            Err(e) => return Err(e),
        };
        match typ {
            Type::AllocBitmap => Ok(
                DirEnt::AllocBitmap(
                    AllocBitmap {
                        bitmap_flags: buf[1],
                        first_cluster: read_u32(buf, 20),
                        data_length: read_u64(buf, 24),
                    },
                ),
            ),
            Type::UpcaseTable => Ok(
                DirEnt::UpcaseTable(
                    UpcaseTable {
                        table_checksum: read_u32(buf, 4),
                        first_cluster: read_u32(buf, 20),
                        data_length: read_u64(buf, 24),
                    },
                ),
            ),
            Type::VolumnLabel => Ok(
                DirEnt::VolumnLabel(
                    VolumnLabel { chars_cnt: buf[1], volumn_label: read_u16_units(buf, 2, 11) },
                ),
            ),
            Type::FileOrDir => Ok(DirEnt::FileOrDir(decode_file_or_dir(buf), (clusno, offset))),
            Type::StreamExt => Ok(DirEnt::StreamExt(decode_stream_ext(buf))),
            Type::FileName => Ok(
                DirEnt::FileName(
                    FileName { gen_secondary_flags: buf[1], filename: read_u16_units(buf, 2, 15) },
                ),
            ),
            Type::Unused => Ok(DirEnt::Unused),
            Type::FinalUnused => Ok(DirEnt::FinalUnused),
        }
    }
}

/// A classified exFAT table entry.
#[derive(Debug, Clone, Copy, PartialEq, Eq, Structural)]
pub enum FatEnt {
    Chain(u32),
    BadCluster,
    EndOfChain,
    Reserved,
}

/// The class of a 32-bit exFAT entry on a volume of `cluster_count` clusters.
pub open spec fn fat_ent_of(raw: u32, cluster_count: u32) -> FatEnt {
    if 2 <= raw <= cluster_count + 1 {
        FatEnt::Chain(raw)
    } else if raw == 0xFFFF_FFFF {
        FatEnt::EndOfChain
    } else if raw == 0xFFFF_FFF7 {
        FatEnt::BadCluster
    } else {
        FatEnt::Reserved
    }
}

impl FatEnt {
    /// The size of a table entry in bytes.
    pub const SZ: usize = 4;

    pub fn new(raw: u32, cluster_count: u32) -> (r: FatEnt)
        ensures
            r == fat_ent_of(raw, cluster_count),
    {
        if 2 <= raw && raw as u64 <= cluster_count as u64 + 1 {
            FatEnt::Chain(raw)
        } else if raw == 0xFFFF_FFFF {
            FatEnt::EndOfChain
        } else if raw == 0xFFFF_FFF7 {
            FatEnt::BadCluster
        } else {
            FatEnt::Reserved
        }
    }
}

/// Record `i` of a run of 32-byte records.
pub open spec fn record(set: Seq<u8>, i: int) -> Seq<u8> {
    set.subrange(32 * i, 32 * i + 32)
}

/// The run of records is a file record, a stream extension and one or more names.
pub open spec fn set_shape_ok(set: Seq<u8>) -> bool {
    &&& set.len() % 32 == 0
    &&& set.len() / 32 >= 3
    &&& set[0] == 0x85
    &&& set[32] == 0xC0
    &&& forall|i: int| 2 <= i < set.len() / 32 ==> #[trigger] set[32 * i] == 0xC1
}

/// The name code units of records `2..k`, in order.
pub open spec fn set_name_units(set: Seq<u8>, k: nat) -> Seq<u16>
    decreases k,
{
    if k <= 2 {
        Seq::empty()
    } else {
        set_name_units(set, (k - 1) as nat) + le16_units(set, 32 * (k - 1) + 2, 15)
    }
}

/// What the file-info reduced from an entry set holds.
pub open spec fn set_info(f: Finfo, set: Seq<u8>, clus: u32, off: u32) -> bool {
    let k = set.len() / 32;
    let attrs = le16(set, 4) as u16;
    &&& f.id == entry_id(clus, off)
    &&& f.name@ == utf16_lossy(until_nul(set_name_units(set, k as nat)))
    &&& f.is_rdonly == (attrs & 0x01 != 0)
    &&& f.is_hidden == (attrs & 0x02 != 0)
    &&& f.is_system == (attrs & 0x04 != 0)
    &&& f.is_dir == (attrs & 0x10 != 0)
    &&& f.size == le64(set, 40)
    &&& f.fst_clus == le32(set, 52)
    &&& f.crt_time == exfat_instant(le32(set, 8) as u32, set[22], set[20])
    &&& f.wrt_time == exfat_instant(le32(set, 12) as u32, set[23], set[21])
    &&& f.acc_time == exfat_instant(le32(set, 16) as u32, set[24], 0)
}

/// Reduces an entry set, the concatenated raw records `set` whose file record lies
/// in cluster `clus` at index `off`, to a file-info. The set must be a file
/// record, a stream extension and names, and its checksum must match.
pub fn reduce(set: &[u8], clus: u32, off: u32) -> (r: Result<Finfo, Error>)
    requires
        set@.len() % 32 == 0,
    ensures
        !set_shape_ok(set@) <==> r == Err::<Finfo, Error>(Error::DirEntReductionFailed),
        set_shape_ok(set@) && set_sum(set@, set@.len()) != le16(set@, 2) <==> r == Err::<
            Finfo,
            Error,
        >(Error::ChecksumMismatch),
        r is Ok <==> set_shape_ok(set@) && set_sum(set@, set@.len()) == le16(set@, 2),
        r matches Ok(f) ==> set_info(f, set@, clus, off),
{
    let n = set.len();
    let k = n / 32;
    if k < 3 || set[0] != 0x85 || set[32] != 0xC0 {
        return Err(Error::DirEntReductionFailed);
    }
    let mut i: usize = 2;
    let mut units: Vec<u16> = Vec::new();
    while i < k
        invariant
            2 <= i <= k,
            k == set@.len() / 32,
            n == set@.len(),
            n % 32 == 0,
            forall|j: int| 2 <= j < i ==> #[trigger] set@[32 * j] == 0xC1,
            units@ == set_name_units(set@, i as nat),
        decreases k - i,
    {
        if set[32 * i] != 0xC1 {
            return Err(Error::DirEntReductionFailed);
        }
        let mut piece = read_u16_units(set, 32 * i + 2, 15);
        units.append(&mut piece);
        i += 1;
    }
    let mut sum: u16 = 0;
    let mut b: usize = 0;
    while b < n
        invariant
            b <= n,
            n == set@.len(),
            sum == set_sum(set@, b as nat),
        decreases n - b,
    {
        if b != 2 && b != 3 {
            let rot: u16 = sum / 2 + (sum % 2) * 0x8000;
            sum = ((rot as u32 + set[b] as u32) % 0x1_0000) as u16;
        }
        b += 1;
    }
    if sum != read_u16(set, 2) {
        return Err(Error::ChecksumMismatch);
    }
    let file = decode_file_or_dir(set);
    let stream = decode_stream_ext(&set[32..64]);
    Ok(
        Finfo {
            id: make_id(clus, off),
            name: decode_name(units.as_slice()),
            is_rdonly: file.is_rdonly(),
            is_hidden: file.is_hidden(),
            is_system: file.is_system(),
            is_dir: file.is_dir(),
            size: stream.valid_data_length,
            fst_clus: stream.first_cluster,
            crt_time: file.crt_time(),
            wrt_time: file.mod_time(),
            acc_time: file.acc_time(),
        },
    )
}

} // verus!

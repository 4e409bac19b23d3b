use fatfuse::device::MemDevice;
use fatfuse::error::FsError;
use fatfuse::exfat::{boot_checksum, entset_checksum, reduce, BootSec, DateTime, DirEnt, Error, FatEnt, Type};
use fatfuse::fs::Fs;
use fatfuse::volume::{Fio, FsType};

const BPS: usize = 512;
const SPC_SHIFT: u8 = 5;
const CLUS: usize = BPS << SPC_SHIFT;
const FAT_OFF: usize = 24;
const HEAP_OFF: usize = 32;
const COUNT: usize = 64;
const ROOT: usize = 4;

fn put16(b: &mut [u8], off: usize, v: u16) {
    b[off..off + 2].copy_from_slice(&v.to_le_bytes());
}

fn put32(b: &mut [u8], off: usize, v: u32) {
    b[off..off + 4].copy_from_slice(&v.to_le_bytes());
}

fn put64(b: &mut [u8], off: usize, v: u64) {
    b[off..off + 8].copy_from_slice(&v.to_le_bytes());
}

struct Img {
    data: Vec<u8>,
}

impl Img {
    /// An exFAT volume whose root (cluster 4) records the allocation bitmap.
    fn new() -> Img {
        let mut data = vec![0u8; HEAP_OFF * BPS + COUNT * CLUS];
        data[3..11].copy_from_slice(b"EXFAT   ");
        let sectors = (data.len() / BPS) as u64;
        put64(&mut data, 72, sectors);
        put32(&mut data, 80, FAT_OFF as u32);
        put32(&mut data, 84, 8);
        put32(&mut data, 88, HEAP_OFF as u32);
        put32(&mut data, 92, COUNT as u32);
        put32(&mut data, 96, ROOT as u32);
        data[104] = 0;
        data[105] = 1;
        data[108] = 9;
        data[109] = SPC_SHIFT;
        data[110] = 1;
        put16(&mut data, 510, 0xAA55);
        let mut img = Img { data };
        img.set_fat(ROOT, 0xFFFF_FFFF);
        let mut bitmap = [0u8; 32];
        bitmap[0] = 0x81;
        put32(&mut bitmap, 20, 2);
        put64(&mut bitmap, 24, 8);
        img.put_records(ROOT, 0, &bitmap);
        img
    }

    fn set_fat(&mut self, c: usize, v: u32) {
        put32(&mut self.data, FAT_OFF * BPS + 4 * c, v);
    }

    fn put_records(&mut self, c: usize, idx: usize, recs: &[u8]) {
        let off = HEAP_OFF * BPS + (c - 2) * CLUS + 32 * idx;
        self.data[off..off + recs.len()].copy_from_slice(recs);
    }

    fn fs(self) -> Fs<MemDevice> {
        let fio = match Fio::new(MemDevice::new(self.data), FsType::Exfat) {
            Ok(f) => f,
            Err(e) => panic!("mount failed: {:?}", e),
        };
        Fs::new(fio)
    }
}

/// The records of an entry set: file, stream extension and names.
fn entry_set(name: &str, attrs: u16, first: u32, size: u64) -> Vec<u8> {
    let units: Vec<u16> = name.encode_utf16().collect();
    let n = (units.len() + 14) / 15;
    let mut set = vec![0u8; 32 * (2 + n)];
    set[0] = 0x85;
    set[1] = (1 + n) as u8;
    put16(&mut set, 4, attrs);
    set[32] = 0xC0;
    set[32 + 3] = units.len() as u8;
    put64(&mut set, 32 + 8, size);
    put32(&mut set, 32 + 20, first);
    put64(&mut set, 32 + 24, size);
    for k in 0..n {
        let base = 64 + 32 * k;
        set[base] = 0xC1;
        for j in 0..15 {
            let u = units.get(15 * k + j).copied().unwrap_or(0);
            put16(&mut set, base + 2 + 2 * j, u);
        }
    }
    let sum = entset_checksum(&set, (1 + n) as u8);
    put16(&mut set, 2, sum);
    set
}

#[test]
fn unicode_name() {
    let name = "αβγδεζηθικλμνξοπρστυ";
    assert_eq!(name.encode_utf16().count(), 20);
    let mut img = Img::new();
    let set = entry_set(name, 0x20, 0, 0);
    assert_eq!(set.len(), 4 * 32);
    img.put_records(ROOT, 1, &set);
    let mut fs = img.fs();
    let list = fs.readdir(1).unwrap();
    assert_eq!(list.len(), 1);
    assert_eq!(list[0].name, name);
    assert_eq!(list[0].id, ((ROOT as u64) << 32) | 1);
    assert_eq!(reduce(&set, 4, 1).map(|f| f.name), Ok(name.to_string()));
}

#[test]
fn cross_cluster_directory() {
    let mut img = Img::new();
    img.put_records(ROOT, 1, &entry_set("dir", 0x10, 10, 0));
    img.set_fat(10, 11);
    img.set_fat(11, 0xFFFF_FFFF);
    // twenty deleted records, then two hundred sets of five records each
    let mut recs: Vec<u8> = Vec::new();
    for _ in 0..20 {
        let mut r = [0u8; 32];
        r[0] = 0x05;
        recs.extend_from_slice(&r);
    }
    for k in 0..200 {
        let name = format!("a_file_with_a_long_name_number_{:03}", k);
        let set = entry_set(&name, 0x20, 0, 0);
        assert_eq!(set.len(), 5 * 32);
        recs.extend_from_slice(&set);
    }
    let per_clus = CLUS / 32;
    img.put_records(10, 0, &recs[..CLUS]);
    img.put_records(11, 0, &recs[CLUS..]);
    let mut fs = img.fs();
    let dir_id = fs.readdir(1).unwrap()[0].id;
    let list = fs.readdir(dir_id).unwrap();
    assert_eq!(list.len(), 200);
    for (k, f) in list.iter().enumerate() {
        assert_eq!(f.name, format!("a_file_with_a_long_name_number_{:03}", k));
    }
    let rec = 20 + 5 * 99;
    assert!(rec >= per_clus);
    assert_eq!(list[99].id, (11u64 << 32) | (rec - per_clus) as u64);
}

#[test]
fn bad_checksum_drops_the_set() {
    let mut img = Img::new();
    let mut set = entry_set("broken", 0x20, 0, 0);
    set[2] ^= 0xFF;
    img.put_records(ROOT, 1, &set);
    img.put_records(ROOT, 4, &entry_set("fine", 0x20, 0, 0));
    let mut fs = img.fs();
    let list = fs.readdir(1).unwrap();
    assert_eq!(list.len(), 1);
    assert_eq!(list[0].name, "fine");
    assert_eq!(reduce(&set, 4, 1).err(), Some(Error::ChecksumMismatch));
}

#[test]
fn malformed_sets_do_not_reduce() {
    let set = entry_set("x", 0x20, 0, 0);
    assert_eq!(reduce(&set[..64], 4, 1).err(), Some(Error::DirEntReductionFailed));
    let mut swapped = set.clone();
    swapped[32] = 0xC1;
    assert_eq!(reduce(&swapped, 4, 1).err(), Some(Error::DirEntReductionFailed));
}

#[test]
fn undefined_record_type_fails_the_listing() {
    let mut img = Img::new();
    let mut r = [0u8; 32];
    r[0] = 0x90;
    img.put_records(ROOT, 1, &r);
    let mut fs = img.fs();
    assert_eq!(fs.readdir(1).err(), Some(FsError::UndefinedEntry(0x90)));
}

#[test]
fn file_read_and_attributes() {
    let mut img = Img::new();
    img.put_records(ROOT, 1, &entry_set("data.bin", 0x21, 20, 40_000));
    img.set_fat(20, 21);
    img.set_fat(21, 22);
    img.set_fat(22, 0xFFFF_FFFF);
    let content: Vec<u8> = (0..40_000u32).map(|i| (i * 7 % 256) as u8).collect();
    img.put_records(20, 0, &content[..CLUS]);
    img.put_records(21, 0, &content[CLUS..2 * CLUS]);
    img.put_records(22, 0, &content[2 * CLUS..]);
    let mut fs = img.fs();
    let f = fs.readdir(1).unwrap()[0].clone();
    assert!(f.is_rdonly && !f.is_dir);
    assert_eq!(f.size, 40_000);
    assert_eq!(f.fst_clus, 20);
    assert_eq!(fs.read(f.id, 16_000, 1_000).unwrap(), content[16_000..17_000].to_vec());
    assert_eq!(fs.read(f.id, 39_990, 1_000).unwrap(), content[39_990..].to_vec());
    assert!(fs.read(f.id, 40_000, 1).unwrap().is_empty());
}

#[test]
fn boot_sector_validation() {
    let img = Img::new();
    let bs = BootSec::new(&img.data[..512]).unwrap();
    assert!(bs.is_valid());
    assert_eq!(bs.bytes_per_sec(), 512);
    assert_eq!(bs.secs_per_clus(), 32);
    assert_eq!(bs.bytes_per_clus(), 16384);
    let mut bad = img.data[..512].to_vec();
    bad[20] = 1;
    assert!(!BootSec::new(&bad).unwrap().is_valid());
    let mut big = img.data[..512].to_vec();
    big[109] = 17;
    assert!(!BootSec::new(&big).unwrap().is_valid());
    assert!(BootSec::new(&img.data[..511]).is_none());
    let fio = Fio::new(MemDevice::new(img.data), FsType::Exfat).unwrap();
    assert_eq!(fio.bitmap_clusno, 2);
}

#[test]
fn fat_entries_and_types() {
    assert_eq!(FatEnt::new(5, 64), FatEnt::Chain(5));
    assert_eq!(FatEnt::new(66, 64), FatEnt::Reserved);
    assert_eq!(FatEnt::new(1, 64), FatEnt::Reserved);
    assert_eq!(FatEnt::new(0xFFFF_FFFF, 64), FatEnt::EndOfChain);
    assert_eq!(FatEnt::new(0xFFFF_FFF7, 64), FatEnt::BadCluster);
    assert_eq!(Type::new(0x85), Ok(Type::FileOrDir));
    assert_eq!(Type::new(0x05), Ok(Type::Unused));
    assert_eq!(Type::new(0xA0), Err(Error::Undefined(0xA0)));
    assert!(Type::new(0x81).unwrap().in_use());
    assert!(!Type::new(0).unwrap().in_use());
    assert!(matches!(DirEnt::new(&[0u8; 32], 1, 2), Ok(DirEnt::FinalUnused)));
    assert_eq!(DirEnt::new(&[0u8; 8], 1, 2).err(), Some(Error::ReadFailed));
}

#[test]
fn checksums() {
    // rotate-add over the set, skipping bytes 2 and 3
    let mut set = vec![0u8; 96];
    set[0] = 1;
    set[2] = 0xFF;
    set[95] = 3;
    let mut sum: u16 = 0;
    for (i, &b) in set.iter().enumerate() {
        if i != 2 && i != 3 {
            sum = ((sum >> 1) | (sum << 15)).wrapping_add(b as u16);
        }
    }
    assert_eq!(entset_checksum(&set, 2), sum);
    let sector = vec![1u8; 512 * 11];
    let mut bsum: u32 = 0;
    for (i, &b) in sector.iter().enumerate() {
        if i != 106 && i != 107 && i != 112 {
            bsum = ((bsum >> 1) | (bsum << 31)).wrapping_add(b as u32);
        }
    }
    assert_eq!(boot_checksum(&sector, 512), bsum);
}

#[test]
fn timestamps() {
    // 2020-06-15 12:30:10 with a +01:00 offset, and 50 hundredths
    let dt: u32 = (40 << 25) | (6 << 21) | (15 << 16) | (12 << 11) | (30 << 5) | 5;
    let d = DateTime::new(dt);
    assert_eq!((d.year, d.month, d.day, d.hour, d.minute, d.second), (40, 6, 15, 12, 30, 5));
    let mut set = entry_set("t", 0x20, 0, 0);
    put32(&mut set, 8, dt);
    set[20] = 50;
    set[22] = 0x80 | 4;
    put32(&mut set, 16, dt);
    set[24] = 0x80 | 0x7C;
    let sum = entset_checksum(&set, 2);
    put16(&mut set, 2, sum);
    let f = reduce(&set, 4, 1).unwrap();
    // 2020-06-15T11:30:10Z
    assert_eq!(f.crt_time.secs, 1_592_220_610);
    assert_eq!(f.crt_time.nanos, 500_000_000);
    // -01:00: 2020-06-15T13:30:10Z
    assert_eq!(f.acc_time.secs, 1_592_227_810);
    assert_eq!(f.wrt_time.secs, 0);
}

#[test]
fn records_join_entry_sets() {
    let set = entry_set("hello", 0x20, 9, 3);
    match DirEnt::new(&set[64..96], 4, 3).unwrap() {
        DirEnt::FileName(n) => assert_eq!(n.name(), "hello"),
        _ => panic!("expected a name record"),
    }
    let primary = DirEnt::new(&set[0..32], 4, 1).unwrap();
    assert!(primary.entry_set().unwrap().is_primary());
    let stream = DirEnt::new(&set[32..64], 4, 2).unwrap();
    assert!(!stream.entry_set().unwrap().is_primary());
    assert!(DirEnt::new(&[0x05u8; 32], 4, 2).unwrap().entry_set().is_none());
}

#[test]
fn large_hundredths_are_added() {
    let dt: u32 = (40 << 25) | (6 << 21) | (15 << 16) | (12 << 11) | (30 << 5) | 5;
    let mut set = entry_set("t", 0x20, 0, 0);
    put32(&mut set, 12, dt);
    set[21] = 250;
    let sum = entset_checksum(&set, 2);
    put16(&mut set, 2, sum);
    let f = reduce(&set, 4, 1).unwrap();
    // 2020-06-15T12:30:10Z plus 2.5 s
    assert_eq!(f.wrt_time.secs, 1_592_224_210 + 2);
    assert_eq!(f.wrt_time.nanos, 500_000_000);
}

#[test]
fn decoded_records_up_to_the_terminator() {
    let mut img = Img::new();
    let set = entry_set("abc", 0x20, 0, 0);
    let mut unused = [0u8; 32];
    unused[0] = 0x05;
    img.put_records(ROOT, 1, &unused);
    img.put_records(ROOT, 2, &set);
    // record 5 is the terminator; record 6 must not be listed
    img.put_records(ROOT, 6, &set[..32]);
    let fio = Fio::new(MemDevice::new(img.data), FsType::Exfat).unwrap();
    let recs = fio.read_entries(ROOT as u32).unwrap();
    assert_eq!(recs.len(), 4);
    assert!(matches!(recs[0], DirEnt::AllocBitmap(_)));
    assert!(matches!(recs[1], DirEnt::FileOrDir(_, (4, 2))));
    assert!(matches!(recs[2], DirEnt::StreamExt(_)));
    assert!(matches!(recs[3], DirEnt::FileName(_)));
}

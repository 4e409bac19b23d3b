use fatfuse::device::MemDevice;
use fatfuse::error::FsError;
use fatfuse::fat32::{BootSec, DirEnt, FatEnt};
use fatfuse::fs::Fs;
use fatfuse::volume::{Fio, FsType};

const BPS: usize = 512;
const RSVD: usize = 32;

struct Img {
    data: Vec<u8>,
    spc: usize,
    fat_sz: usize,
}

fn put16(b: &mut [u8], off: usize, v: u16) {
    b[off..off + 2].copy_from_slice(&v.to_le_bytes());
}

fn put32(b: &mut [u8], off: usize, v: u32) {
    b[off..off + 4].copy_from_slice(&v.to_le_bytes());
}

impl Img {
    /// An empty FAT32 volume of 65,530 clusters whose root directory is cluster 2.
    fn new(spc: usize) -> Img {
        let clusters = 65530usize;
        let fat_sz = ((clusters + 2) * 4 + BPS - 1) / BPS;
        let tot = RSVD + 2 * fat_sz + clusters * spc;
        let mut data = vec![0u8; tot * BPS];
        put16(&mut data, 11, BPS as u16);
        data[13] = spc as u8;
        put16(&mut data, 14, RSVD as u16);
        data[16] = 2;
        put32(&mut data, 32, tot as u32);
        put32(&mut data, 36, fat_sz as u32);
        put32(&mut data, 44, 2);
        put16(&mut data, 510, 0xAA55);
        let mut img = Img { data, spc, fat_sz };
        img.set_fat(0, 0x0FFF_FFF8);
        img.set_fat(1, 0x0FFF_FFFF);
        img.set_fat(2, 0x0FFF_FFFF);
        img
    }

    fn set_fat(&mut self, c: usize, v: u32) {
        put32(&mut self.data, RSVD * BPS + 4 * c, v);
    }

    fn clus_off(&self, c: usize) -> usize {
        (RSVD + 2 * self.fat_sz + (c - 2) * self.spc) * BPS
    }

    fn put_record(&mut self, c: usize, idx: usize, rec: &[u8; 32]) {
        let off = self.clus_off(c) + 32 * idx;
        self.data[off..off + 32].copy_from_slice(rec);
    }

    fn put_bytes(&mut self, c: usize, bytes: &[u8]) {
        let off = self.clus_off(c);
        self.data[off..off + bytes.len()].copy_from_slice(bytes);
    }

    fn fs(self) -> Fs<MemDevice> {
        let fio = match Fio::new(MemDevice::new(self.data), FsType::Fat32) {
            Ok(f) => f,
            Err(e) => panic!("mount failed: {:?}", e),
        };
        Fs::new(fio)
    }
}

fn sfn(name: &[u8; 11], attr: u8, nt: u8, clus: u32, size: u32) -> [u8; 32] {
    let mut r = [0u8; 32];
    r[..11].copy_from_slice(name);
    r[11] = attr;
    r[12] = nt;
    put16(&mut r, 20, (clus >> 16) as u16);
    put16(&mut r, 26, clus as u16);
    put32(&mut r, 28, size);
    r
}

fn checksum(name: &[u8; 11]) -> u8 {
    let mut sum: u8 = 0;
    for &b in name.iter() {
        sum = ((sum >> 1) | (sum << 7)).wrapping_add(b);
    }
    sum
}

fn lfn(ord: u8, text: &str, chksum: u8) -> [u8; 32] {
    let mut units: Vec<u16> = text.encode_utf16().collect();
    if units.len() < 13 {
        units.push(0);
    }
    while units.len() < 13 {
        units.push(0xFFFF);
    }
    let mut r = [0u8; 32];
    r[0] = ord;
    r[11] = 0x0F;
    r[13] = chksum;
    let spans = [(1usize, 0usize, 5usize), (14, 5, 6), (28, 11, 2)];
    for (off, from, n) in spans.iter() {
        for k in 0..*n {
            put16(&mut r, off + 2 * k, units[from + k]);
        }
    }
    r
}

fn id_of(clus: u64, idx: u64) -> u64 {
    (clus << 32) | idx
}

#[test]
fn empty_volume_lists_nothing() {
    let mut fs = Img::new(1).fs();
    assert!(fs.readdir(1).unwrap().is_empty());
    assert!(fs.lookup(1, "x").unwrap().is_none());
    assert!(fs.getinfo(2).is_none());
}

#[test]
fn short_name_file() {
    let mut img = Img::new(1);
    img.put_record(2, 0, &sfn(b"HELLO   TXT", 0x20, 0, 3, 13));
    img.set_fat(3, 0x0FFF_FFFF);
    img.put_bytes(3, b"Hello, world\n");
    let mut fs = img.fs();
    let list = fs.readdir(1).unwrap();
    assert_eq!(list.len(), 1);
    assert_eq!(list[0].name, "HELLO.TXT");
    assert_eq!(list[0].size, 13);
    assert!(!list[0].is_dir);
    assert_eq!(list[0].id, id_of(2, 0));
    assert_eq!(fs.read(list[0].id, 0, 100).unwrap(), b"Hello, world\n".to_vec());
    let found = fs.lookup(1, "HELLO.TXT").unwrap().unwrap();
    assert_eq!(found.id, list[0].id);
}

#[test]
fn long_name_wins_over_lowercased_short_name() {
    let name = b"README  MD ";
    let mut img = Img::new(1);
    img.put_record(2, 0, &lfn(0x41, "Readme.md", checksum(name)));
    img.put_record(2, 1, &sfn(name, 0x20, 0x08, 0, 0));
    let mut fs = img.fs();
    let list = fs.readdir(1).unwrap();
    assert_eq!(list.len(), 1);
    assert_eq!(list[0].name, "Readme.md");
    assert_eq!(list[0].id, id_of(2, 1));
}

#[test]
fn corrupted_long_name_checksum_falls_back() {
    let name = b"README  MD ";
    let mut img = Img::new(1);
    img.put_record(2, 0, &lfn(0x41, "Readme.md", checksum(name).wrapping_add(1)));
    img.put_record(2, 1, &sfn(name, 0x20, 0x08, 0, 0));
    let mut fs = img.fs();
    let list = fs.readdir(1).unwrap();
    assert_eq!(list.len(), 1);
    assert_eq!(list[0].name, "readme.md");
}

#[test]
fn long_name_over_two_fragments() {
    let name = b"ALONGN~1TXT";
    let ck = checksum(name);
    let mut img = Img::new(1);
    img.put_record(2, 0, &lfn(0x42, "file.txt", ck));
    img.put_record(2, 1, &lfn(0x01, "a_rather_long", ck));
    img.put_record(2, 2, &sfn(name, 0x20, 0, 0, 0));
    let mut fs = img.fs();
    let list = fs.readdir(1).unwrap();
    assert_eq!(list[0].name, "a_rather_longfile.txt");
}

#[test]
fn deleted_and_label_entries_are_skipped_and_end_marker_stops() {
    let mut img = Img::new(1);
    img.put_record(2, 0, &sfn(b"VOLUME     ", 0x08, 0, 0, 0));
    let mut deleted = sfn(b"GONE    TXT", 0x20, 0, 0, 0);
    deleted[0] = 0xE5;
    img.put_record(2, 1, &deleted);
    img.put_record(2, 2, &sfn(b"KEEP    TXT", 0x20, 0, 0, 0));
    // record 3 is the end marker (all zero); record 4 must not be listed
    img.put_record(2, 4, &sfn(b"AFTER   TXT", 0x20, 0, 0, 0));
    let mut fs = img.fs();
    let list = fs.readdir(1).unwrap();
    assert_eq!(list.len(), 1);
    assert_eq!(list[0].name, "KEEP.TXT");
}

#[test]
fn kanji_lead_byte_and_extensionless_name() {
    let mut img = Img::new(1);
    img.put_record(2, 0, &sfn(b"\x05BC        ", 0x10, 0, 0, 0));
    let mut fs = img.fs();
    let list = fs.readdir(1).unwrap();
    assert_eq!(list[0].name, "\u{e5}BC");
    assert!(list[0].is_dir);
}

#[test]
fn multi_cluster_read() {
    let mut img = Img::new(8);
    let content: Vec<u8> = (0..10_000u32).map(|i| (i % 251) as u8).collect();
    img.put_record(2, 0, &sfn(b"BIG     BIN", 0x20, 0, 3, 10_000));
    img.set_fat(3, 4);
    img.set_fat(4, 5);
    img.set_fat(5, 0x0FFF_FFFF);
    img.put_bytes(3, &content[0..4096]);
    img.put_bytes(4, &content[4096..8192]);
    img.put_bytes(5, &content[8192..]);
    let mut fs = img.fs();
    let id = fs.readdir(1).unwrap()[0].id;
    assert_eq!(fs.read(id, 5000, 3000).unwrap(), content[5000..8000].to_vec());
    assert_eq!(fs.read(id, 9999, 100).unwrap(), vec![content[9999]]);
    // reading from the start, then from the end
    let whole = fs.read(id, 0, 10_000).unwrap();
    assert_eq!(whole, content);
    assert!(fs.read(id, 10_000, 7).unwrap().is_empty());
    // a read at an offset is the tail of the read from the start
    let head = fs.read(id, 0, 4100 + 200).unwrap();
    assert_eq!(fs.read(id, 4100, 200).unwrap(), head[4100..].to_vec());
    assert_eq!(fs.read(id, 4100, 20_000).unwrap().len(), 10_000 - 4100);
}

#[test]
fn bad_cluster_in_chain_fails_the_read() {
    let mut img = Img::new(1);
    img.put_record(2, 0, &sfn(b"BAD     BIN", 0x20, 0, 3, 1000));
    img.set_fat(3, 4);
    img.set_fat(4, 0x0FFF_FFF7);
    let mut fs = img.fs();
    let id = fs.readdir(1).unwrap()[0].id;
    assert_eq!(fs.read(id, 0, 10).unwrap(), vec![0u8; 10]);
    assert_eq!(fs.read(id, 600, 10), Err(FsError::BadCluster));
}

#[test]
fn subdirectory_listing_is_cached_and_consistent() {
    let mut img = Img::new(1);
    img.put_record(2, 0, &sfn(b"SUB        ", 0x10, 0, 3, 0));
    img.put_record(2, 1, &sfn(b"EMPTY      ", 0x10, 0, 0, 0));
    img.set_fat(3, 0x0FFF_FFFF);
    img.put_record(3, 0, &sfn(b"A       TXT", 0x20, 0, 0, 0));
    img.put_record(3, 1, &sfn(b"B       TXT", 0x20, 0, 0, 0));
    let mut fs = img.fs();
    let root = fs.readdir(1).unwrap();
    let sub = root[0].id;
    let first = fs.readdir(sub).unwrap();
    let second = fs.readdir(sub).unwrap();
    assert_eq!(first.len(), 2);
    assert_eq!(first.iter().map(|f| f.name.clone()).collect::<Vec<_>>(), second.iter().map(|f| f.name.clone()).collect::<Vec<_>>());
    for f in first.iter() {
        let g = fs.getinfo(f.id).unwrap();
        assert_eq!(g.name, f.name);
        assert_eq!(g.id, f.id);
    }
    assert_eq!(first[1].id, id_of(3, 1));
    assert!(fs.readdir(root[1].id).unwrap().is_empty());
    assert_eq!(fs.readdir(12345).err(), Some(FsError::NotFound));
    assert_eq!(fs.read(12345, 0, 1).err(), Some(FsError::NotFound));
}

#[test]
fn open_and_close_count_references() {
    let mut img = Img::new(1);
    img.put_record(2, 0, &sfn(b"F       TXT", 0x20, 0, 0, 0));
    let mut fs = img.fs();
    let id = fs.readdir(1).unwrap()[0].id;
    assert!(!fs.open(99));
    assert!(fs.open(id));
    assert!(fs.open(id));
    fs.close(id);
    fs.close(id);
    fs.close(id);
    assert!(fs.open(id));
}

#[test]
fn boot_sector_checks() {
    let img = Img::new(1);
    let bs = BootSec::new(&img.data[..512]).unwrap();
    assert!(bs.check_fat32());
    assert_eq!(bs.cluster_size(), 512);
    assert_eq!(bs.fat_start_sector(), 32);
    assert_eq!(bs.data_start_sector(), 32 + 2 * img.fat_sz as u64);
    assert_eq!(bs.data_sectors(), 65530);
    assert!(BootSec::new(&img.data[..100]).is_err());
    let mut bad = img.data[..512].to_vec();
    bad[16] = 1;
    assert!(!BootSec::new(&bad).unwrap().check_fat32());
    let mut small = img.data[..512].to_vec();
    put32(&mut small, 32, 1000);
    assert!(!BootSec::new(&small).unwrap().check_fat32());
    let mut bad_sig = img.data.clone();
    bad_sig[510] = 0;
    assert_eq!(Fio::new(MemDevice::new(bad_sig), FsType::Fat32).err(), Some(FsError::InvalidBootSector));
}

#[test]
fn fat_entries_classify() {
    assert_eq!(FatEnt::new(&0u32.to_le_bytes()), FatEnt::Unused);
    assert_eq!(FatEnt::new(&1u32.to_le_bytes()), FatEnt::Reserved);
    assert_eq!(FatEnt::new(&0x0FFF_FFF7u32.to_le_bytes()), FatEnt::Bad);
    assert_eq!(FatEnt::new(&0x0FFF_FFF8u32.to_le_bytes()), FatEnt::Eoc);
    assert_eq!(FatEnt::new(&0xFFFF_FFFFu32.to_le_bytes()), FatEnt::Eoc);
    assert_eq!(FatEnt::new(&0xF000_0005u32.to_le_bytes()), FatEnt::Next(5));
}

#[test]
fn records_decode() {
    let name = b"README  MD ";
    match DirEnt::new(&sfn(name, 0x21, 0x08, 0x0001_0002, 77), 5, 6).unwrap() {
        DirEnt::Sfn(e) => {
            assert_eq!(e.fst_clus(), 0x0001_0002);
            assert_eq!(e.file_size, 77);
            assert!(e.is_rdonly() && e.is_archive() && !e.is_dir() && !e.is_hidden() && !e.is_system());
            assert_eq!(e.create_chksum(), checksum(name));
            assert_eq!(e.name(), "readme.md");
            assert_eq!((e.clus_no, e.off), (5, 6));
            assert!(!e.is_unused() && !e.is_end() && !e.is_volumeid());
            // a zero date names no day: the instant falls back to the epoch
            assert_eq!(e.wrt_time().secs, 0);
            assert_eq!(e.last_acc_time().secs, 0);
        }
        DirEnt::Lfn(_) => panic!("expected a short entry"),
    }
    match DirEnt::new(&lfn(0x43, "abc", 9), 0, 0).unwrap() {
        DirEnt::Lfn(e) => {
            assert!(e.is_last());
            assert_eq!(e.ordno(), 3);
            assert_eq!(e.name(), "abc");
            assert_eq!(e.chksum, 9);
        }
        DirEnt::Sfn(_) => panic!("expected a fragment"),
    }
    assert!(DirEnt::new(&[0u8; 31], 0, 0).is_err());
}

#[test]
fn chain_errors_and_out_of_range_clusters() {
    let mut img = Img::new(1);
    img.put_record(2, 0, &sfn(b"SHORT   BIN", 0x20, 0, 3, 5000));
    img.put_record(2, 1, &sfn(b"NOWHERE BIN", 0x20, 0, 1, 10));
    img.set_fat(3, 0x0FFF_FFFF);
    let mut fs = img.fs();
    let list = fs.readdir(1).unwrap();
    assert_eq!(fs.read(list[0].id, 0, 10).unwrap().len(), 10);
    assert_eq!(fs.read(list[0].id, 600, 10).err(), Some(FsError::ChainTooShort));
    assert_eq!(fs.read(list[1].id, 0, 10).err(), Some(FsError::ClusterOutOfRange));
}

#[test]
fn cluster_reads_out_of_range_are_empty() {
    let img = Img::new(1);
    let fio = Fio::new(MemDevice::new(img.data), FsType::Fat32).unwrap();
    assert!(fio.read_clus(0).unwrap().is_empty());
    assert!(fio.read_clus(1).unwrap().is_empty());
    assert!(fio.read_clus(65532).unwrap().is_empty());
    assert_eq!(fio.read_clus(65531).unwrap().len(), 512);
    assert_eq!(fio.geo.cluster_count, 65530);
}

#[test]
fn short_device_fails_to_mount() {
    assert_eq!(Fio::new(MemDevice::new(vec![0u8; 100]), FsType::Fat32).err(), Some(FsError::Io));
}

#[test]
fn empty_directory_head_lists_nothing() {
    let img = Img::new(1);
    let fio = Fio::new(MemDevice::new(img.data), FsType::Fat32).unwrap();
    assert!(fio.read_dirents(0).unwrap().is_empty());
    assert!(fio.read_file(3, 100, 100, 5).unwrap().is_empty());
    assert!(fio.read_file(3, 100, 0, 0).unwrap().is_empty());
    assert_eq!(fio.read_dirents(70_000).err(), Some(FsError::ClusterOutOfRange));
}

#[test]
fn volume_label_and_invalid_creation_time() {
    match DirEnt::new(&sfn(b"MY DISK    ", 0x08, 0, 0, 0), 2, 0).unwrap() {
        DirEnt::Sfn(e) => {
            assert_eq!(e.volume_label(), "MY DISK");
            // no valid date: the hundredths are not added to the epoch
            assert_eq!((e.crt_time().secs, e.crt_time().nanos), (0, 0));
        }
        DirEnt::Lfn(_) => panic!("expected a short entry"),
    }
    let mut raw = sfn(b"MY DISK    ", 0x08, 0, 0, 0);
    raw[13] = 150;
    raw[0] = 0xFF;
    match DirEnt::new(&raw, 2, 0).unwrap() {
        DirEnt::Sfn(e) => {
            assert_eq!(e.volume_label(), "ERROR");
            assert_eq!((e.crt_time().secs, e.crt_time().nanos), (0, 0));
        }
        DirEnt::Lfn(_) => panic!("expected a short entry"),
    }
}

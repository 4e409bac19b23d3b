//! A read-only FAT32 / exFAT filesystem engine: boot sector parsing, FAT chain
//! walking, directory-entry decoding and reduction, and an inode-style cache.
pub mod codec;
pub mod device;
pub mod error;
pub mod exfat;
pub mod ext2;
pub mod fat32;
pub mod laws;
pub mod mbr;
pub mod finfo;
pub mod fs;
pub mod text;
pub mod time;
pub mod volume;

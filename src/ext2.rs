//! The ext2 superblock: the fields the driver inspects and the values derived
//! from them.
use vstd::prelude::*;
use vstd::arithmetic::power2::pow2;
use crate::codec::{le16, le32, read_u16, read_u32};

verus! {

pub const EXT2_SUPER_MAGIC: u16 = 0xEF53;
pub const EXT2_GOOD_OLD_INODE_SIZE: u16 = 128;
pub const EXT2_GOOD_OLD_FIRST_INO: u32 = 11;
pub const EXT2_FEATURE_INCOMPAT_COMPRESSION: u32 = 0x01;
pub const EXT3_FEATURE_INCOMPAT_RECOVER: u32 = 0x04;
pub const EXT3_FEATURE_INCOMPAT_JOURNAL_DEV: u32 = 0x08;
pub const EXT2_FEATURE_INCOMPAT_META_BG: u32 = 0x10;
pub const EXT2_VALID_FS: u16 = 1;

/// The superblock fields the driver reads.
#[derive(Debug, Clone, Copy, PartialEq, Eq, Structural)]
pub struct Sblk {
    pub inodes_cnt: u32,
    pub blocks_cnt: u32,
    pub r_blocks_cnt: u32,
    pub free_blocks_cnt: u32,
    pub free_inodes_cnt: u32,
    pub first_data_block: u32,
    pub log2_block_size: u32,
    pub log2_frag_size: u32,
    pub blocks_per_group: u32,
    pub frags_per_group: u32,
    pub inodes_per_group: u32,
    pub magic: u16,
    pub state: u16,
    pub rev_level: u32,
    pub first_ino: u32,
    pub inode_size: u16,
    pub feature_incompat: u32,
}

/// `s` holds the fields stored in the superblock bytes `b`.
pub open spec fn sblk_of(s: Sblk, b: Seq<u8>) -> bool {
    &&& s.inodes_cnt == le32(b, 0)
    &&& s.blocks_cnt == le32(b, 4)
    &&& s.r_blocks_cnt == le32(b, 8)
    &&& s.free_blocks_cnt == le32(b, 12)
    &&& s.free_inodes_cnt == le32(b, 16)
    &&& s.first_data_block == le32(b, 20)
    &&& s.log2_block_size == le32(b, 24)
    &&& s.log2_frag_size == le32(b, 28)
    &&& s.blocks_per_group == le32(b, 32)
    &&& s.frags_per_group == le32(b, 36)
    &&& s.inodes_per_group == le32(b, 40)
    &&& s.magic == le16(b, 56)
    &&& s.state == le16(b, 58)
    &&& s.rev_level == le32(b, 76)
    &&& s.first_ino == le32(b, 84)
    &&& s.inode_size == le16(b, 88)
    &&& s.feature_incompat == le32(b, 96)
}

impl Sblk {
    /// Decodes a superblock; fails on fewer than 1024 bytes.
    pub fn new(buf: &[u8]) -> (r: Option<Sblk>)
        ensures
            buf@.len() < 1024 <==> r is None,
            r matches Some(s) ==> sblk_of(s, buf@),
    {
        if buf.len() < 1024 {
            return None;
        }
        Some(
            Sblk {
                inodes_cnt: read_u32(buf, 0),
                blocks_cnt: read_u32(buf, 4),
                r_blocks_cnt: read_u32(buf, 8),
                free_blocks_cnt: read_u32(buf, 12),
                free_inodes_cnt: read_u32(buf, 16),
                first_data_block: read_u32(buf, 20),
                log2_block_size: read_u32(buf, 24),
                log2_frag_size: read_u32(buf, 28),
                blocks_per_group: read_u32(buf, 32),
                frags_per_group: read_u32(buf, 36),
                inodes_per_group: read_u32(buf, 40),
                magic: read_u16(buf, 56),
                state: read_u16(buf, 58),
                rev_level: read_u32(buf, 76),
                first_ino: read_u32(buf, 84),
                inode_size: read_u16(buf, 88),
                feature_incompat: read_u32(buf, 96),
            },
        )
    }

    /// The magic number and a clean state, without the incompatible features the
    /// driver does not handle.
    pub fn is_valid(&self) -> (r: bool)
        ensures
            r == (self.magic == EXT2_SUPER_MAGIC && self.state == EXT2_VALID_FS
                && self.feature_incompat & EXT2_FEATURE_INCOMPAT_COMPRESSION == 0
                && self.feature_incompat & EXT3_FEATURE_INCOMPAT_RECOVER == 0
                && self.feature_incompat & EXT3_FEATURE_INCOMPAT_JOURNAL_DEV == 0
                && self.feature_incompat & EXT2_FEATURE_INCOMPAT_META_BG == 0),
    {
        self.magic == EXT2_SUPER_MAGIC && self.state == EXT2_VALID_FS
            && self.feature_incompat & EXT2_FEATURE_INCOMPAT_COMPRESSION == 0
            && self.feature_incompat & EXT3_FEATURE_INCOMPAT_RECOVER == 0
            && self.feature_incompat & EXT3_FEATURE_INCOMPAT_JOURNAL_DEV == 0
            && self.feature_incompat & EXT2_FEATURE_INCOMPAT_META_BG == 0
    }

    /// The block size: 1024 bytes shifted left by `log2_block_size`.
    pub fn blk_sz(&self) -> (r: u32)
        requires
            self.log2_block_size <= 21,
        ensures
            r == 1024 * pow2(self.log2_block_size as nat),
    {
        let mut r: u32 = 1024;
        let mut i: u32 = 0;
        proof {
            vstd::arithmetic::power2::lemma2_to64();
        }
        while i < self.log2_block_size
            invariant
                i <= self.log2_block_size <= 21,
                r == 1024 * pow2(i as nat),
            decreases self.log2_block_size - i,
        {
            proof {
                vstd::arithmetic::power2::lemma_pow2_unfold((i + 1) as nat);
                if i < 21 {
                    vstd::arithmetic::power2::lemma_pow2_strictly_increases(i as nat, 21);
                }
                vstd::arithmetic::power2::lemma2_to64();
            }
            r = r * 2;
            i += 1;
        }
        r
    }

    /// Revision 0 ("good old") superblocks lack the dynamic fields.
    pub fn is_rev0(&self) -> (r: bool)
        ensures
            r == (self.rev_level == 0),
    {
        self.rev_level == 0
    }

    pub fn inode_sz(&self) -> (r: u16)
        ensures
            r == if self.rev_level == 0 {
                EXT2_GOOD_OLD_INODE_SIZE
            } else {
                self.inode_size
            },
    {
        if self.is_rev0() {
            EXT2_GOOD_OLD_INODE_SIZE
        } else {
            self.inode_size
        }
    }

    pub fn first_ino(&self) -> (r: u32)
        ensures
            r == if self.rev_level == 0 {
                EXT2_GOOD_OLD_FIRST_INO
            } else {
                self.first_ino
            },
    {
        if self.is_rev0() {
            EXT2_GOOD_OLD_FIRST_INO
        } else {
            self.first_ino
        }
    }

    /// The number of block groups: the blocks over the blocks per group, rounded up.
    pub fn groups_cnt(&self) -> (r: u32)
        requires
            self.blocks_per_group != 0,
        ensures
            r == (self.blocks_cnt + self.blocks_per_group - 1) / (self.blocks_per_group as int),
    {
        let q = self.blocks_cnt / self.blocks_per_group;
        let rem = self.blocks_cnt % self.blocks_per_group;
        proof {
            let b = self.blocks_per_group as int;
            let n = self.blocks_cnt as int;
            vstd::arithmetic::div_mod::lemma_fundamental_div_mod(n, b);
            assert(n == q * b + rem) by (nonlinear_arith)
                requires
                    n == b * (n / b) + n % b,
                    q == n / b,
                    rem == n % b,
            ;
            if rem != 0 {
                assert(n + b - 1 == (q + 1) * b + (rem - 1)) by (nonlinear_arith)
                    requires
                        n == q * b + rem,
                ;
                vstd::arithmetic::div_mod::lemma_fundamental_div_mod_converse_div(n + b - 1, b, q + 1, rem - 1);
                assert(b >= 2);
                assert(q * b >= q * 2) by (nonlinear_arith)
                    requires
                        b >= 2,
                        q >= 0,
                ;
            } else {
                assert(n + b - 1 == q * b + (b - 1)) by (nonlinear_arith)
                    requires
                        n == q * b + rem,
                        rem == 0,
                ;
                vstd::arithmetic::div_mod::lemma_fundamental_div_mod_converse_div(n + b - 1, b, q as int, b - 1);
            }
        }
        if rem != 0 {
            q + 1
        } else {
            q
        }
    }
}

} // verus!

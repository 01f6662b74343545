use vstd::arithmetic::power2::{lemma2_to64_rest, lemma_pow2_strictly_increases, lemma_pow2_unfold, pow2};
use vstd::prelude::*;

use crate::error::Error;

verus! {

/// A buffer of `n` zero bytes.
pub fn zeroed(n: usize) -> (r: Vec<u8>)
    ensures
        r@.len() == n,
{
    let mut buffer: Vec<u8> = Vec::with_capacity(n);
    let mut i: usize = 0;
    while i < n
        invariant
            i <= n,
            buffer@.len() == i,
        decreases n - i,
    {
        buffer.push(0);
        i = i + 1;
    }
    buffer
}

/// The little-endian `u16` at `i`.
pub open spec fn le16(b: Seq<u8>, i: int) -> nat {
    (b[i] as nat) + 256 * (b[i + 1] as nat)
}

/// The little-endian `u32` at `i`.
pub open spec fn le32(b: Seq<u8>, i: int) -> nat {
    le16(b, i) + 65536 * le16(b, i + 2)
}

/// The little-endian `u64` at `i`.
pub open spec fn le64(b: Seq<u8>, i: int) -> nat {
    le32(b, i) + 4294967296 * le32(b, i + 4)
}

/// Reads the little-endian `u16` at `i`.
pub fn read_u16(b: &[u8], i: usize) -> (r: u16)
    requires
        i + 2 <= b.len(),
    ensures
        r == le16(b@, i as int),
{
    b[i] as u16 + (b[i + 1] as u16) * 256
}

/// Reads the little-endian `u32` at `i`.
pub fn read_u32(b: &[u8], i: usize) -> (r: u32)
    requires
        i + 4 <= b.len(),
    ensures
        r == le32(b@, i as int),
{
    read_u16(b, i) as u32 + (read_u16(b, i + 2) as u32) * 65536
}

/// Reads the little-endian `u64` at `i`.
pub fn read_u64(b: &[u8], i: usize) -> (r: u64)
    requires
        i + 8 <= b.len(),
    ensures
        r == le64(b@, i as int),
{
    read_u32(b, i) as u64 + (read_u32(b, i + 4) as u64) * 4294967296
}

/// The byte at `i` read as a signed 8-bit value.
pub open spec fn signed8(b: Seq<u8>, i: int) -> int {
    if b[i] < 128 {
        b[i] as int
    } else {
        b[i] - 256
    }
}

/// The DOS BIOS parameter block, at offset 11 of a boot sector.
#[allow(non_camel_case_types)]
#[derive(Clone, Copy, Debug, PartialEq, Eq, Structural)]
pub struct BIOS_PARAMETER_BLOCK {
    pub bytes_per_sector: u16,
    pub sectors_per_cluster: u8,
    pub reserved_sectors: u16,
    pub number_of_fats: u8,
    pub root_directories: u16,
    pub total_sectors: u16,
    pub media_descriptor: u8,
    pub sectors_per_fat: u16,
    pub sectors_per_track: u16,
    pub number_of_heads: u16,
    pub hidden_sectors: u32,
    pub total_sectors_32: u32,
}

/// The size of the BIOS parameter block.
pub const BPB_SIZE: usize = 25;

/// The BIOS parameter block whose first byte is at `i`.
pub open spec fn bpb_at(b: Seq<u8>, i: int) -> BIOS_PARAMETER_BLOCK {
    BIOS_PARAMETER_BLOCK {
        bytes_per_sector: le16(b, i) as u16,
        sectors_per_cluster: b[i + 2],
        reserved_sectors: le16(b, i + 3) as u16,
        number_of_fats: b[i + 5],
        root_directories: le16(b, i + 6) as u16,
        total_sectors: le16(b, i + 8) as u16,
        media_descriptor: b[i + 10],
        sectors_per_fat: le16(b, i + 11) as u16,
        sectors_per_track: le16(b, i + 13) as u16,
        number_of_heads: le16(b, i + 15) as u16,
        hidden_sectors: le32(b, i + 17) as u32,
        total_sectors_32: le32(b, i + 21) as u32,
    }
}

impl BIOS_PARAMETER_BLOCK {
    /// Decodes the block whose first byte is at `i`.
    pub fn decode(b: &[u8], i: usize) -> (r: Self)
        requires
            i + BPB_SIZE <= b.len(),
        ensures
            r == bpb_at(b@, i as int),
    {
        BIOS_PARAMETER_BLOCK {
            bytes_per_sector: read_u16(b, i),
            sectors_per_cluster: b[i + 2],
            reserved_sectors: read_u16(b, i + 3),
            number_of_fats: b[i + 5],
            root_directories: read_u16(b, i + 6),
            total_sectors: read_u16(b, i + 8),
            media_descriptor: b[i + 10],
            sectors_per_fat: read_u16(b, i + 11),
            sectors_per_track: read_u16(b, i + 13),
            number_of_heads: read_u16(b, i + 15),
            hidden_sectors: read_u32(b, i + 17),
            total_sectors_32: read_u32(b, i + 21),
        }
    }
}

/// The size of a boot sector, and of the header that a volume is identified by.
pub const SECTOR_SIZE: usize = 512;

/// Where the BIOS parameter block starts in a boot sector.
pub const BPB_OFFSET: usize = 11;

/// Where the NTFS extended BIOS parameter block starts in a boot sector.
pub const EBPB_OFFSET: usize = 36;

/// Whether bytes 3 to 6 of a header spell `NTFS`.
pub open spec fn ntfs_signed(h: Seq<u8>) -> bool {
    h.len() >= 7 && h[3] == 0x4e && h[4] == 0x54 && h[5] == 0x46 && h[6] == 0x53
}

/// What a boot sector says of the volume's layout, in bytes.
#[derive(Clone, Copy, Debug, PartialEq, Eq, Structural)]
pub struct Geometry {
    pub cluster_size: u64,
    pub mft_offset: u64,
    pub backup_mft_offset: u64,
    pub record_size: u64,
    pub index_buffer_size: u64,
}

/// The size that a signed size field gives: a positive value counts clusters, any other
/// value `v` stands for `2^-v` bytes.
pub open spec fn scaled_size(v: int, cluster: nat) -> nat {
    if v > 0 {
        (v * cluster) as nat
    } else {
        pow2((-v) as nat)
    }
}

/// The layout of a volume from its boot sector, where every size fits in a `u64` and the
/// cluster size is not zero.
#[verifier::opaque]
pub open spec fn geometry_of(h: Seq<u8>) -> Option<Geometry> {
    let cluster = le16(h, 11) * (h[13] as nat);
    let mft = le64(h, 48) * cluster;
    let backup = le64(h, 56) * cluster;
    let record = scaled_size(signed8(h, 64), cluster);
    let index = scaled_size(signed8(h, 68), cluster);
    if cluster > 0 && mft <= u64::MAX && backup <= u64::MAX && record <= u64::MAX && index
        <= u64::MAX {
        Some(
            Geometry {
                cluster_size: cluster as u64,
                mft_offset: mft as u64,
                backup_mft_offset: backup as u64,
                record_size: record as u64,
                index_buffer_size: index as u64,
            },
        )
    } else {
        None
    }
}

/// A cluster size that a boot sector gives is at most the largest sector size times the
/// largest number of sectors per cluster.
pub proof fn lemma_cluster_bound(h: Seq<u8>)
    requires
        h.len() >= SECTOR_SIZE,
    ensures
        geometry_of(h) matches Some(g) ==> 0 < g.cluster_size <= 65535 * 255,
{
    reveal(geometry_of);
    let a = le16(h, 11);
    let b = h[13] as nat;
    assert(a * b <= 65535 * 255) by (nonlinear_arith)
        requires
            a <= 65535,
            b <= 255,
    ;
}

/// Reads the signed 8-bit value at `i`.
fn read_i8(b: &[u8], i: usize) -> (r: i8)
    requires
        i < b@.len(),
    ensures
        r == signed8(b@, i as int),
{
    if b[i] < 128 {
        b[i] as i8
    } else {
        (b[i] as i16 - 256) as i8
    }
}

/// The size that a signed size field gives, or `None` where it does not fit in a `u64`.
fn size_from(v: i8, cluster: u64) -> (r: Option<u64>)
    ensures
        scaled_size(v as int, cluster as nat) <= u64::MAX ==> r == Some(
            scaled_size(v as int, cluster as nat) as u64,
        ),
        scaled_size(v as int, cluster as nat) > u64::MAX ==> r is None,
{
    if v > 0 {
        (v as u64).checked_mul(cluster)
    } else {
        let e: u32 = (-(v as i32)) as u32;
        if e >= 64 {
            proof {
                lemma2_to64_rest();
                if e > 64 {
                    lemma_pow2_strictly_increases(64, e as nat);
                }
            }
            return None;
        }
        let mut p: u64 = 1;
        let mut i: u32 = 0;
        proof {
            lemma2_to64_rest();
            assert(pow2(0) == 1) by {
                vstd::arithmetic::power2::lemma2_to64();
            }
        }
        while i < e
            invariant
                i <= e,
                e < 64,
                p == pow2(i as nat),
                pow2(64) == 0x10000000000000000,
            decreases e - i,
        {
            proof {
                lemma_pow2_unfold((i + 1) as nat);
                lemma_pow2_strictly_increases((i + 1) as nat, 64);
            }
            p = p * 2;
            i = i + 1;
        }
        Some(p)
    }
}

/// Computes the layout of a volume from its boot sector; fails with `InvalidData` where a
/// size overflows a `u64` or the cluster size is zero.
pub fn geometry(h: &[u8]) -> (r: Result<Geometry, Error>)
    requires
        h@.len() >= SECTOR_SIZE,
    ensures
        match geometry_of(h@) {
            Some(g) => r == Ok::<Geometry, Error>(g),
            None => r == Err::<Geometry, Error>(Error::InvalidData),
        },
{
    reveal(geometry_of);
    let bpb = BIOS_PARAMETER_BLOCK::decode(h, BPB_OFFSET);
    let sector = bpb.bytes_per_sector as u64;
    let per = bpb.sectors_per_cluster as u64;
    assert(sector * per <= 65535 * 255) by (nonlinear_arith)
        requires
            sector <= 65535,
            per <= 255,
    ;
    let cluster = sector * per;
    if cluster == 0 {
        return Err(Error::InvalidData);
    }
    let mft = match read_u64(h, EBPB_OFFSET + 12).checked_mul(cluster) {
        Some(v) => v,
        None => {
            return Err(Error::InvalidData);
        },
    };
    let backup = match read_u64(h, EBPB_OFFSET + 20).checked_mul(cluster) {
        Some(v) => v,
        None => {
            return Err(Error::InvalidData);
        },
    };
    let record = match size_from(read_i8(h, EBPB_OFFSET + 28), cluster) {
        Some(v) => v,
        None => {
            return Err(Error::InvalidData);
        },
    };
    let index = match size_from(read_i8(h, EBPB_OFFSET + 32), cluster) {
        Some(v) => v,
        None => {
            return Err(Error::InvalidData);
        },
    };
    Ok(
        Geometry {
            cluster_size: cluster,
            mft_offset: mft,
            backup_mft_offset: backup,
            record_size: record,
            index_buffer_size: index,
        },
    )
}

} // verus!

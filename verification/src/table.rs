//! The partition table: its entries, the accepted-type policy, and the
//! parse of the table itself out of the image's first sector.
//!
//! The on-disk layout interpreted here is the MBR-style table: sector 0
//! ends with the boot-record signature `0x55 0xAA`, and holds four 16-byte
//! slots starting at byte 446. Within a slot, the type code is at byte 4,
//! the little-endian start sector at bytes 8..12, and the little-endian
//! sector count at bytes 12..16. A sector without the signature does not
//! parse, which is fatal for the whole locate operation.

use vstd::prelude::*;

use crate::error::LocateError;

verus! {

/// Byte offset of the first table slot within sector 0.
pub const TABLE_OFFSET: usize = 446;

/// Size of one table slot in bytes.
pub const SLOT_SIZE: usize = 16;

/// Number of slots in the table.
pub const SLOT_COUNT: usize = 4;

/// One entry of an MBR-style partition table: the partition's type code and
/// its extent in sectors, in on-disk table order.
#[derive(Clone, Copy, Debug, PartialEq, Eq, Structural)]
pub struct PartitionEntry {
    /// On-disk format identifier (e.g. a FAT-family code).
    pub type_code: u8,
    /// First sector of the partition.
    pub start_sector: u32,
    /// Number of sectors in the partition.
    pub sector_count: u32,
}

/// The set of partition type codes accepted as possible boot filesystems.
///
/// Membership is an explicit, caller-configurable set, so that further
/// filesystem types can be accepted without changing the scan itself.
#[derive(Clone, Debug)]
pub struct TypePolicy {
    pub codes: Vec<u8>,
}

impl TypePolicy {
    /// The type codes this policy accepts.
    pub open spec fn spec_codes(self) -> Seq<u8> {
        self.codes@
    }

    /// Whether `code` is in the accepted set.
    pub open spec fn spec_accepts(self, code: u8) -> bool {
        self.codes@.contains(code)
    }

    /// A policy that accepts exactly the given type codes.
    pub fn new(codes: Vec<u8>) -> (r: TypePolicy)
        ensures
            r.spec_codes() == codes@,
    {
        TypePolicy { codes }
    }

    /// The default policy: accept only the FAT-family type code 12.
    pub fn fat_default() -> (r: TypePolicy)
        ensures
            r.spec_codes() == seq![12u8],
            forall|c: u8| r.spec_accepts(c) <==> c == 12,
    {
        let mut codes: Vec<u8> = Vec::new();
        codes.push(12);
        proof {
            assert(codes@ =~= seq![12u8]);
            assert forall|c: u8| codes@.contains(c) implies c == 12 by {
                let i = choose|i: int| 0 <= i < codes@.len() && codes@[i] == c;
                assert(codes@[i] == 12);
            }
            assert(codes@[0] == 12);
        }
        TypePolicy { codes }
    }

    /// Membership test for `code`.
    pub fn accepts(&self, code: u8) -> (r: bool)
        ensures
            r == self.spec_accepts(code),
    {
        let mut i: usize = 0;
        while i < self.codes.len()
            invariant
                i <= self.codes.len(),
                forall|j: int| 0 <= j < i ==> self.codes@[j] != code,
            decreases self.codes.len() - i,
        {
            if self.codes[i] == code {
                return true;
            }
            i += 1;
        }
        false
    }
}

/// Whether `s` holds a structurally valid partition-table sector: at least
/// one full sector, ending with the boot-record signature.
pub open spec fn table_parses(s: Seq<u8>) -> bool {
    s.len() >= 512 && s[510] == 0x55 && s[511] == 0xaa
}

/// The little-endian 32-bit value held at byte offset `off` of `s`.
pub open spec fn le32_at(s: Seq<u8>, off: int) -> u32 {
    (s[off] as int + s[off + 1] as int * 0x100 + s[off + 2] as int * 0x10000 + s[off + 3] as int
        * 0x1000000) as u32
}

/// The entry held by table slot `k` of sector-0 bytes `s`.
pub open spec fn slot_entry(s: Seq<u8>, k: int) -> PartitionEntry {
    PartitionEntry {
        type_code: s[446 + 16 * k + 4],
        start_sector: le32_at(s, 446 + 16 * k + 8),
        sector_count: le32_at(s, 446 + 16 * k + 12),
    }
}

/// The little-endian 32-bit value at byte offset `off` of the sector.
fn le32(sector: &Vec<u8>, off: usize) -> (r: u32)
    requires
        off + 4 <= 512,
        sector@.len() >= 512,
    ensures
        r == le32_at(sector@, off as int),
{
    let b0 = *sector.get(off).unwrap() as u32;
    let b1 = *sector.get(off + 1).unwrap() as u32;
    let b2 = *sector.get(off + 2).unwrap() as u32;
    let b3 = *sector.get(off + 3).unwrap() as u32;
    b0 + b1 * 0x100 + b2 * 0x10000 + b3 * 0x1000000
}

/// Parse the four partition-table slots out of the image's first sector.
///
/// Returns the entries in on-disk table order when the sector carries the
/// boot-record signature, and `Format` — fatal for a locate operation —
/// when the signature or the sector itself is absent or malformed.
pub fn parse_partition_table(sector: &Vec<u8>) -> (r: Result<Vec<PartitionEntry>, LocateError>)
    ensures
        r is Ok <==> table_parses(sector@),
        r is Ok ==> r.unwrap()@.len() == 4,
        r is Ok ==> forall|k: int| 0 <= k < 4 ==> r.unwrap()@[k] == slot_entry(sector@, k),
        r is Err ==> r.unwrap_err() == LocateError::Format,
{
    if sector.len() < 512 {
        return Err(LocateError::Format);
    }
    if *sector.get(510).unwrap() != 0x55 || *sector.get(511).unwrap() != 0xaa {
        return Err(LocateError::Format);
    }
    let mut entries: Vec<PartitionEntry> = Vec::new();
    let mut k: usize = 0;
    while k < SLOT_COUNT
        invariant
            sector@.len() >= 512,
            table_parses(sector@),
            k <= SLOT_COUNT,
            entries@.len() == k,
            forall|m: int| 0 <= m < k ==> entries@[m] == slot_entry(sector@, m),
        decreases SLOT_COUNT - k,
    {
        let base: usize = TABLE_OFFSET + SLOT_SIZE * k;
        let entry = PartitionEntry {
            type_code: *sector.get(base + 4).unwrap(),
            start_sector: le32(sector, base + 8),
            sector_count: le32(sector, base + 12),
        };
        proof {
            assert(entry == slot_entry(sector@, k as int));
        }
        entries.push(entry);
        k += 1;
    }
    Ok(entries)
}

} // verus!

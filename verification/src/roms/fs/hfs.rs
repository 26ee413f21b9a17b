//! The HFS0 partition file system of game cards: like PFS0, with longer
//! entries.
use vstd::prelude::*;
use crate::bytes::{read_u32_le, read_u64_le, copy_range, spec_u32_le, spec_u64_le, BinError};
use crate::roms::fs::pfs::{check_table_header, spec_table_header_check, PFSHeader};

verus! {

/// An entry of an HFS0 table: 44 bytes, of which the data's offset and size
/// and the name's offset are read.
#[derive(Debug, Clone, Copy, PartialEq, Eq, Structural)]
pub struct HFSEntry {
    pub offset: u64,
    pub size: u64,
    pub string_offset: u32,
}

pub open spec fn hfs0_magic() -> Seq<u8> {
    seq![0x48u8, 0x46u8, 0x53u8, 0x30u8]
}

pub open spec fn spec_hfs_entry(s: Seq<u8>, at: int) -> HFSEntry {
    HFSEntry {
        offset: spec_u64_le(s, at) as u64,
        size: spec_u64_le(s, at + 8) as u64,
        string_offset: spec_u32_le(s, at + 16) as u32,
    }
}

/// The header of an HFS0 partition.
#[derive(Debug)]
pub struct HashPartitionFsHeader {
    pub entry_count: u32,
    pub string_table_size: u32,
    pub entry_table: Vec<HFSEntry>,
    pub string_table: Vec<u8>,
    /// Where the entries' data starts: 0x18 bytes per entry, the string
    /// table and the 0x10 bytes of the header's start.
    pub raw_data_pos: u64,
}

impl HashPartitionFsHeader {
    /// Whether the header holds what the bytes `s` hold.
    pub open spec fn read_from(&self, s: Seq<u8>) -> bool {
        &&& self.entry_count == spec_u32_le(s, 4)
        &&& self.string_table_size == spec_u32_le(s, 8)
        &&& self.entry_table@ == Seq::new(
            self.entry_count as nat,
            |i: int| spec_hfs_entry(s, 0x10 + 44 * i),
        )
        &&& self.string_table@ == (if self.string_table_size == 0 {
            Seq::<u8>::empty()
        } else {
            s.subrange(
                0x10 + 44 * self.entry_count,
                0x10 + 44 * self.entry_count + self.string_table_size,
            )
        })
        &&& self.raw_data_pos == 24 * self.entry_count + self.string_table_size + 0x10
    }

    /// Reads an HFS0 header from the bytes at the start of a partition.
    pub fn parse(s: &[u8]) -> (r: Result<HashPartitionFsHeader, BinError>)
        ensures
            r matches Err(e) ==> spec_table_header_check(s@, hfs0_magic(), 44, 20) == Err::<(), BinError>(e),
            r is Ok <==> spec_table_header_check(s@, hfs0_magic(), 44, 20) is Ok,
            r matches Ok(h) ==> h.read_from(s@),
    {
        let magic: [u8; 4] = [0x48u8, 0x46u8, 0x53u8, 0x30u8];
        assert(magic@ == hfs0_magic());
        let (n, st) = match check_table_header(s, &magic, 44, 20) {
            Ok(v) => v,
            Err(e) => {
                return Err(e);
            },
        };
        let len = s.len();
        let mut entries: Vec<HFSEntry> = Vec::new();
        let mut i: u32 = 0;
        while i < n
            invariant
                i <= n,
                n == spec_u32_le(s@, 4),
                st == spec_u32_le(s@, 8),
                len == s@.len(),
                len >= crate::roms::fs::pfs::table_end(n as nat, st as nat, 44, 20),
                entries@ == Seq::new(i as nat, |k: int| spec_hfs_entry(s@, 0x10 + 44 * k)),
            decreases n - i,
        {
            let at: usize = 0x10 + 44 * (i as usize);
            assert(at + 20 <= len) by (nonlinear_arith)
                requires
                    at == 0x10 + 44 * i,
                    i < n,
                    len >= crate::roms::fs::pfs::table_end(n as nat, st as nat, 44, 20),
            ;
            let e = HFSEntry {
                offset: read_u64_le(s, at),
                size: read_u64_le(s, at + 8),
                string_offset: read_u32_le(s, at + 16),
            };
            entries.push(e);
            assert(entries@ =~= Seq::new((i + 1) as nat, |k: int| spec_hfs_entry(s@, 0x10 + 44 * k)));
            i = i + 1;
        }
        let strings = if st > 0 {
            let table_start: usize = 0x10 + 44 * (n as usize);
            copy_range(s, table_start, table_start + st as usize)
        } else {
            Vec::new()
        };
        Ok(
            HashPartitionFsHeader {
                entry_count: n,
                string_table_size: st,
                entry_table: entries,
                string_table: strings,
                raw_data_pos: n as u64 * 24 + st as u64 + 0x10,
            },
        )
    }
}

impl PFSHeader for HashPartitionFsHeader {
    open spec fn spec_raw_data_pos(&self) -> u64 {
        self.raw_data_pos
    }

    fn raw_data_pos(&self) -> (r: u64) {
        self.raw_data_pos
    }
}

} // verus!

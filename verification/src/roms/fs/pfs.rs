//! The PFS0 partition file system: a header listing entries and their names,
//! followed by the entries' data.
use vstd::prelude::*;
use vstd::utf8::*;
use crate::bytes::{read_u32_le, read_u64_le, copy_range, spec_u32_le, spec_u64_le, BinError};
use crate::roms::readers::FileRegion;
use crate::text::{find_first_byte, is_first_index, utf8_to_string};
use std::string::FromUtf8Error;

verus! {

/// Why the name of an entry cannot be read.
#[derive(Debug)]
pub enum PartitionFsErrors {
    /// The name is not UTF-8.
    DecodingError(FromUtf8Error),
    /// No NUL byte ends the name.
    NullTerminatorError,
}

/// An entry of a PFS0 table: where its data is, relative to the data start,
/// and where its name is in the string table.
#[derive(Debug, Clone, Copy, PartialEq, Eq, Structural)]
pub struct PFSEntry {
    pub offset: u64,
    pub size: u64,
    pub string_offset: u32,
}

/// The space each entry of a header's table adds before the entries' data.
pub const ENTRY_STRIDE: u64 = 0x18;

/// The bytes of the PFS0 magic.
pub open spec fn pfs0_magic() -> Seq<u8> {
    seq![0x50u8, 0x46u8, 0x53u8, 0x30u8]
}

/// The entry whose 24 bytes start at `at`: offset and size as little-endian
/// 64-bit numbers, the name's offset as a 32-bit one, then 4 unused bytes.
pub open spec fn spec_pfs_entry(s: Seq<u8>, at: int) -> PFSEntry {
    PFSEntry {
        offset: spec_u64_le(s, at) as u64,
        size: spec_u64_le(s, at + 8) as u64,
        string_offset: spec_u32_le(s, at + 16) as u32,
    }
}

/// Where the last byte a header read ends: after the string table, or, with
/// an empty string table, after the last entry's name offset, or after the
/// string table's size.
pub open spec fn table_end(n: nat, st: nat, stride: nat, used: nat) -> nat {
    if st > 0 {
        0x10 + stride * n + st
    } else if n > 0 {
        (0x10 + stride * (n - 1) + used) as nat
    } else {
        12
    }
}

/// Whether a header with the given magic, whose entries take `stride` bytes
/// of which the first `used` are read, can be read from `s`.
pub open spec fn spec_table_header_check(s: Seq<u8>, magic: Seq<u8>, stride: nat, used: nat) -> Result<
    (),
    BinError,
> {
    if s.len() < 4 {
        Err(BinError::UnexpectedEof)
    } else if s.take(4) != magic {
        Err(BinError::BadMagic)
    } else if s.len() < 12 {
        Err(BinError::UnexpectedEof)
    } else if s.len() < table_end(
        spec_u32_le(s, 4) as nat,
        spec_u32_le(s, 8) as nat,
        stride,
        used,
    ) {
        Err(BinError::UnexpectedEof)
    } else {
        Ok(())
    }
}

/// The header of a PFS0 partition.
#[derive(Debug)]
pub struct PartitionFsHeader {
    pub entry_count: u32,
    pub string_table_size: u32,
    pub entry_table: Vec<PFSEntry>,
    pub string_table: Vec<u8>,
    /// Where the entries' data starts, from the start of the partition.
    pub raw_data_pos: u64,
}

/// Checks the magic and the length of a table header, as a structured binary
/// reader finds them, and gives the number of entries and the size of the
/// string table.
pub fn check_table_header(s: &[u8], magic: &[u8; 4], stride: u64, used: u64) -> (r: Result<(u32, u32), BinError>)
    requires
        0 < used <= stride <= 0x100,
    ensures
        r matches Ok((n, st)) ==> spec_table_header_check(s@, magic@, stride as nat, used as nat) is Ok
            && n == spec_u32_le(s@, 4) && st == spec_u32_le(s@, 8),
        r matches Err(e) ==> spec_table_header_check(s@, magic@, stride as nat, used as nat) == Err::<(), BinError>(e),
{
    let len = s.len();
    if len < 4 {
        return Err(BinError::UnexpectedEof);
    }
    if s[0] != magic[0] || s[1] != magic[1] || s[2] != magic[2] || s[3] != magic[3] {
        assert(s@.take(4) != magic@) by {
            if s@.take(4) == magic@ {
                assert(s@.take(4)[0] == s@[0]);
                assert(s@.take(4)[1] == s@[1]);
                assert(s@.take(4)[2] == s@[2]);
                assert(s@.take(4)[3] == s@[3]);
            }
        }
        return Err(BinError::BadMagic);
    }
    assert(s@.take(4) =~= magic@);
    if len < 12 {
        return Err(BinError::UnexpectedEof);
    }
    let n = read_u32_le(s, 4);
    let st = read_u32_le(s, 8);
    assert(stride * (n as u64) <= 0x100 * 0xFFFF_FFFF) by (nonlinear_arith)
        requires
            stride <= 0x100,
            n <= 0xFFFF_FFFF,
    ;
    assert(n > 0 ==> stride * (n as u64 - 1) <= 0x100 * 0xFFFF_FFFF) by (nonlinear_arith)
        requires
            stride <= 0x100,
            n <= 0xFFFF_FFFF,
    ;
    let end: u64 = if st > 0 {
        0x10 + stride * (n as u64) + st as u64
    } else if n > 0 {
        0x10 + stride * (n as u64 - 1) + used
    } else {
        12
    };
    assert(end == table_end(n as nat, st as nat, stride as nat, used as nat)) by (nonlinear_arith)
        requires
            end == (if st > 0 {
                0x10 + stride * (n as u64) + st as u64
            } else if n > 0 {
                0x10 + stride * (n as u64 - 1) + used
            } else {
                12
            }),
    ;
    if (len as u64) < end {
        return Err(BinError::UnexpectedEof);
    }
    Ok((n, st))
}

impl PartitionFsHeader {
    /// Whether the header holds what the bytes `s` hold.
    pub open spec fn read_from(&self, s: Seq<u8>) -> bool {
        &&& self.entry_count == spec_u32_le(s, 4)
        &&& self.string_table_size == spec_u32_le(s, 8)
        &&& self.entry_table@ == Seq::new(
            self.entry_count as nat,
            |i: int| spec_pfs_entry(s, 0x10 + 24 * i),
        )
        &&& self.string_table@ == (if self.string_table_size == 0 {
            Seq::<u8>::empty()
        } else {
            s.subrange(
                0x10 + 24 * self.entry_count,
                0x10 + 24 * self.entry_count + self.string_table_size,
            )
        })
        &&& self.raw_data_pos == 24 * self.entry_count + self.string_table_size + 0x10
    }

    /// Reads a PFS0 header from the bytes at the start of a partition: the
    /// magic `PFS0`, the entry count and string table size (little-endian,
    /// followed by 4 unused bytes), the entries, and the string table.
    pub fn parse(s: &[u8]) -> (r: Result<PartitionFsHeader, BinError>)
        ensures
            r matches Err(e) ==> spec_table_header_check(s@, pfs0_magic(), 24, 20) == Err::<(), BinError>(e),
            r is Ok <==> spec_table_header_check(s@, pfs0_magic(), 24, 20) is Ok,
            r matches Ok(h) ==> h.read_from(s@),
    {
        let magic: [u8; 4] = [0x50u8, 0x46u8, 0x53u8, 0x30u8];
        assert(magic@ == pfs0_magic());
        let (n, st) = match check_table_header(s, &magic, 24, 20) {
            Ok(v) => v,
            Err(e) => {
                return Err(e);
            },
        };
        let len = s.len();
        let mut entries: Vec<PFSEntry> = Vec::new();
        let mut i: u32 = 0;
        while i < n
            invariant
                i <= n,
                n == spec_u32_le(s@, 4),
                st == spec_u32_le(s@, 8),
                len == s@.len(),
                len >= table_end(n as nat, st as nat, 24, 20),
                entries@ == Seq::new(i as nat, |k: int| spec_pfs_entry(s@, 0x10 + 24 * k)),
            decreases n - i,
        {
            let at: usize = 0x10 + 24 * (i as usize);
            assert(at + 20 <= len) by (nonlinear_arith)
                requires
                    at == 0x10 + 24 * i,
                    i < n,
                    len >= table_end(n as nat, st as nat, 24, 20),
            ;
            let e = PFSEntry {
                offset: read_u64_le(s, at),
                size: read_u64_le(s, at + 8),
                string_offset: read_u32_le(s, at + 16),
            };
            entries.push(e);
            assert(entries@ =~= Seq::new((i + 1) as nat, |k: int| spec_pfs_entry(s@, 0x10 + 24 * k)));
            i = i + 1;
        }
        let strings = if st > 0 {
            let table_start: usize = 0x10 + 24 * (n as usize);
            copy_range(s, table_start, table_start + st as usize)
        } else {
            Vec::new()
        };
        Ok(
            PartitionFsHeader {
                entry_count: n,
                string_table_size: st,
                entry_table: entries,
                string_table: strings,
                raw_data_pos: n as u64 * 24 + st as u64 + 0x10,
            },
        )
    }

    /// The name of an entry: the bytes of the string table from the entry's
    /// name offset up to the first NUL byte, decoded as UTF-8.
    pub fn get_name_for_entry(&self, entry: &PFSEntry) -> (r: Result<String, PartitionFsErrors>)
        requires
            entry.string_offset <= self.string_table@.len(),
        ensures
            ({
                let rest = self.string_table@.skip(entry.string_offset as int);
                &&& (r matches Err(PartitionFsErrors::NullTerminatorError)) <==> !rest.contains(0u8)
                &&& (r matches Err(PartitionFsErrors::DecodingError(_))) <==> exists|p: int|
                    is_first_index(rest, 0u8, p) && !valid_utf8(rest.take(p))
                &&& r matches Ok(name) ==> exists|p: int|
                    is_first_index(rest, 0u8, p) && valid_utf8(rest.take(p)) && name@
                        == decode_utf8(rest.take(p))
            }),
    {
        let start = entry.string_offset as usize;
        let len = self.string_table.len();
        let slice = copy_range(self.string_table.as_slice(), start, len);
        let ghost rest = self.string_table@.skip(entry.string_offset as int);
        assert(slice@ == rest);
        match find_first_byte(slice.as_slice(), 0) {
            Some(pos) => {
                let name_bytes = copy_range(slice.as_slice(), 0, pos);
                assert(name_bytes@ == rest.take(pos as int));
                proof {
                    assert forall|p: int| is_first_index(rest, 0u8, p) implies p == pos by {
                        if p < pos {
                            assert(crate::text::occurs_before(rest, 0u8, pos as int));
                        }
                        if pos < p {
                            assert(crate::text::occurs_before(rest, 0u8, p));
                        }
                    }
                }
                match utf8_to_string(name_bytes) {
                    Ok(name) => Ok(name),
                    Err(e) => Err(PartitionFsErrors::DecodingError(e)),
                }
            },
            None => {
                assert forall|p: int| !is_first_index(rest, 0u8, p) by {
                    if is_first_index(rest, 0u8, p) {
                        assert(rest.contains(0u8));
                    }
                }
                Err(PartitionFsErrors::NullTerminatorError)
            },
        }
    }
}

/// A header of a partition file system, which tells where the entries' data
/// starts.
pub trait PFSHeader {
    spec fn spec_raw_data_pos(&self) -> u64;

    fn raw_data_pos(&self) -> (r: u64)
        ensures
            r == self.spec_raw_data_pos(),
    ;
}

impl PFSHeader for PartitionFsHeader {
    open spec fn spec_raw_data_pos(&self) -> u64 {
        self.raw_data_pos
    }

    fn raw_data_pos(&self) -> (r: u64) {
        self.raw_data_pos
    }
}

/// A partition file system, known by its header.
pub struct PartitionFs<T: PFSHeader> {
    pub header: T,
}

impl<T: PFSHeader> PartitionFs<T> {
    pub fn new(header: T) -> (r: Result<Self, BinError>)
        ensures
            r matches Ok(p) && p.header == header,
    {
        Ok(PartitionFs { header })
    }

    /// The region of the partition that holds an entry's data: it starts at
    /// the entry's offset past the start of the data.
    pub fn open_entry(&self, entry: &PFSEntry) -> (r: FileRegion)
        requires
            entry.offset + self.header.spec_raw_data_pos() <= u64::MAX,
        ensures
            r == (FileRegion { offset: (entry.offset + self.header.spec_raw_data_pos()) as u64, size: entry.size, pos: 0 }),
    {
        FileRegion::new(entry.offset + self.header.raw_data_pos(), entry.size)
    }
}

impl PartitionFs<PartitionFsHeader> {
    /// Reads a PFS0 partition from the bytes at its start.
    pub fn new_default_header(s: &[u8]) -> (r: Result<PartitionFs<PartitionFsHeader>, BinError>)
        ensures
            r is Ok <==> spec_table_header_check(s@, pfs0_magic(), 24, 20) is Ok,
            r matches Err(e) ==> spec_table_header_check(s@, pfs0_magic(), 24, 20) == Err::<(), BinError>(e),
            r matches Ok(p) ==> p.header.read_from(s@),
    {
        let h = PartitionFsHeader::parse(s)?;
        PartitionFs::new(h)
    }
}

} // verus!

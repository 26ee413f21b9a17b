//! RomFS: the read-only file system of a ROM's data, with a header, tables of
//! directories and files, and the files' data.
use vstd::prelude::*;
use vstd::utf8::*;
use crate::bytes::{copy_range, read_u32_le, read_u64_le, spec_u32_le, spec_u64_le, BinError};
use crate::roms::readers::FileRegion;
use crate::text::utf8_to_string;
use std::string::FromUtf8Error;

verus! {

/// Size of a RomFS header.
pub const ROMFS_HEADER_SIZE: usize = 80;

/// The header of a RomFS: where its tables and data are.
#[derive(Debug, Clone, Copy, PartialEq, Eq, Structural)]
pub struct RomFsHeader {
    pub header_size: u64,
    pub dir_hash_table_offset: u64,
    pub dir_hash_table_size: u64,
    pub dir_meta_table_offset: u64,
    pub dir_meta_table_size: u64,
    pub file_hash_table_offset: u64,
    pub file_hash_table_size: u64,
    pub file_meta_table_offset: u64,
    pub file_meta_table_size: u64,
    pub data_offset: u64,
}

/// Whether a RomFS header can be read from `s`: its size field, first,
/// must be 80.
pub open spec fn spec_romfs_header_check(s: Seq<u8>) -> Result<(), BinError> {
    if s.len() < 8 {
        Err(BinError::UnexpectedEof)
    } else if spec_u64_le(s, 0) != 80 {
        Err(BinError::AssertFail)
    } else if s.len() < 80 {
        Err(BinError::UnexpectedEof)
    } else {
        Ok(())
    }
}

impl RomFsHeader {
    /// The ten little-endian numbers of a header, in order.
    pub open spec fn read_from(self, s: Seq<u8>) -> bool {
        &&& self.header_size == spec_u64_le(s, 0)
        &&& self.dir_hash_table_offset == spec_u64_le(s, 8)
        &&& self.dir_hash_table_size == spec_u64_le(s, 16)
        &&& self.dir_meta_table_offset == spec_u64_le(s, 24)
        &&& self.dir_meta_table_size == spec_u64_le(s, 32)
        &&& self.file_hash_table_offset == spec_u64_le(s, 40)
        &&& self.file_hash_table_size == spec_u64_le(s, 48)
        &&& self.file_meta_table_offset == spec_u64_le(s, 56)
        &&& self.file_meta_table_size == spec_u64_le(s, 64)
        &&& self.data_offset == spec_u64_le(s, 72)
    }

    /// Reads a RomFS header from the first 80 bytes of the file system.
    pub fn parse(s: &[u8]) -> (r: Result<RomFsHeader, BinError>)
        ensures
            r matches Err(e) ==> spec_romfs_header_check(s@) == Err::<(), BinError>(e),
            r is Ok <==> spec_romfs_header_check(s@) is Ok,
            r matches Ok(h) ==> h.read_from(s@),
    {
        if s.len() < 8 {
            return Err(BinError::UnexpectedEof);
        }
        let header_size = read_u64_le(s, 0);
        if header_size != 80 {
            return Err(BinError::AssertFail);
        }
        if s.len() < ROMFS_HEADER_SIZE {
            return Err(BinError::UnexpectedEof);
        }
        Ok(
            RomFsHeader {
                header_size,
                dir_hash_table_offset: read_u64_le(s, 8),
                dir_hash_table_size: read_u64_le(s, 16),
                dir_meta_table_offset: read_u64_le(s, 24),
                dir_meta_table_size: read_u64_le(s, 32),
                file_hash_table_offset: read_u64_le(s, 40),
                file_hash_table_size: read_u64_le(s, 48),
                file_meta_table_offset: read_u64_le(s, 56),
                file_meta_table_size: read_u64_le(s, 64),
                data_offset: read_u64_le(s, 72),
            },
        )
    }
}

/// An entry of the file table.
#[derive(Debug)]
pub struct RomFsFileEntry {
    pub parent: u32,
    /// The offset in the file table of the next file of the same directory;
    /// 0xFFFFFFFF for none.
    pub sibling: u32,
    pub offset: u64,
    pub size: u64,
    pub hash: u32,
    pub name_size: u32,
    pub name: Vec<u8>,
}

/// Whether a file entry can be read from `s`: 32 bytes of fields, then the
/// name.
pub open spec fn spec_file_entry_fits(s: Seq<u8>) -> bool {
    s.len() >= 32 && s.len() >= 32 + spec_u32_le(s, 28)
}

impl RomFsFileEntry {
    pub open spec fn read_from(&self, s: Seq<u8>) -> bool {
        &&& self.parent == spec_u32_le(s, 0)
        &&& self.sibling == spec_u32_le(s, 4)
        &&& self.offset == spec_u64_le(s, 8)
        &&& self.size == spec_u64_le(s, 16)
        &&& self.hash == spec_u32_le(s, 24)
        &&& self.name_size == spec_u32_le(s, 28)
        &&& self.name@ == s.subrange(32, 32 + self.name_size)
    }

    /// Reads the file entry that starts at `at` in `s`.
    pub fn parse(s: &[u8], at: usize) -> (r: Result<RomFsFileEntry, BinError>)
        requires
            at <= s@.len(),
        ensures
            r is Ok <==> spec_file_entry_fits(s@.skip(at as int)),
            r matches Err(e) ==> e == BinError::UnexpectedEof,
            r matches Ok(f) ==> f.read_from(s@.skip(at as int)),
    {
        let len = s.len();
        let ghost t = s@.skip(at as int);
        if len - at < 32 {
            return Err(BinError::UnexpectedEof);
        }
        let name_size = read_u32_le(s, at + 28);
        assert(name_size == spec_u32_le(t, 28));
        if ((len - at) as u64) < 32 + name_size as u64 {
            return Err(BinError::UnexpectedEof);
        }
        let name = copy_range(s, at + 32, at + 32 + name_size as usize);
        assert(name@ == t.subrange(32, 32 + name_size));
        let f = RomFsFileEntry {
            parent: read_u32_le(s, at),
            sibling: read_u32_le(s, at + 4),
            offset: read_u64_le(s, at + 8),
            size: read_u64_le(s, at + 16),
            hash: read_u32_le(s, at + 24),
            name_size,
            name,
        };
        assert(f.parent == spec_u32_le(t, 0));
        assert(f.sibling == spec_u32_le(t, 4));
        assert(f.offset == spec_u64_le(t, 8));
        assert(f.size == spec_u64_le(t, 16));
        assert(f.hash == spec_u32_le(t, 24));
        Ok(f)
    }
}

/// An entry of the directory table.
#[derive(Debug)]
pub struct RomFsDirectoryEntry {
    pub parent: u32,
    pub sibling: u32,
    pub child: u32,
    pub file: u32,
    pub hash: u32,
    pub name_size: u32,
    pub name: Vec<u8>,
}

impl RomFsDirectoryEntry {
    pub open spec fn read_from(&self, s: Seq<u8>) -> bool {
        &&& self.parent == spec_u32_le(s, 0)
        &&& self.sibling == spec_u32_le(s, 4)
        &&& self.child == spec_u32_le(s, 8)
        &&& self.file == spec_u32_le(s, 12)
        &&& self.hash == spec_u32_le(s, 16)
        &&& self.name_size == spec_u32_le(s, 20)
        &&& self.name@ == s.subrange(24, 24 + self.name_size)
    }

    /// Reads the directory entry that starts at `at` in `s`: 24 bytes of
    /// fields, then the name.
    pub fn parse(s: &[u8], at: usize) -> (r: Result<RomFsDirectoryEntry, BinError>)
        requires
            at <= s@.len(),
        ensures
            r is Ok <==> ({
                let t = s@.skip(at as int);
                t.len() >= 24 && t.len() >= 24 + spec_u32_le(t, 20)
            }),
            r matches Err(e) ==> e == BinError::UnexpectedEof,
            r matches Ok(d) ==> d.read_from(s@.skip(at as int)),
    {
        let len = s.len();
        let ghost t = s@.skip(at as int);
        if len - at < 24 {
            return Err(BinError::UnexpectedEof);
        }
        let name_size = read_u32_le(s, at + 20);
        assert(name_size == spec_u32_le(t, 20));
        if ((len - at) as u64) < 24 + name_size as u64 {
            return Err(BinError::UnexpectedEof);
        }
        let name = copy_range(s, at + 24, at + 24 + name_size as usize);
        assert(name@ == t.subrange(24, 24 + name_size));
        let d = RomFsDirectoryEntry {
            parent: read_u32_le(s, at),
            sibling: read_u32_le(s, at + 4),
            child: read_u32_le(s, at + 8),
            file: read_u32_le(s, at + 12),
            hash: read_u32_le(s, at + 16),
            name_size,
            name,
        };
        assert(d.parent == spec_u32_le(t, 0));
        assert(d.sibling == spec_u32_le(t, 4));
        assert(d.child == spec_u32_le(t, 8));
        assert(d.file == spec_u32_le(t, 12));
        assert(d.hash == spec_u32_le(t, 16));
        Ok(d)
    }
}

/// The sibling value that ends a chain of files.
pub const NO_SIBLING: u32 = 0xFFFF_FFFF;

/// The chain of file entries that starts at offset `off` of the file table:
/// the offsets of the entries read, and whether reading ended well. Each
/// entry's sibling gives the next, until the sibling is 0xFFFFFFFF. `None`
/// where reading does not end within `fuel` entries, or an offset is past the
/// table, on which the reader fails.
pub open spec fn spec_file_chain(table: Seq<u8>, off: nat, fuel: nat) -> Option<(Seq<nat>, Result<(), BinError>)>
    decreases fuel,
{
    if fuel == 0 || off > table.len() {
        None
    } else if !spec_file_entry_fits(table.skip(off as int)) {
        Some((seq![], Err(BinError::UnexpectedEof)))
    } else {
        let sib = spec_u32_le(table.skip(off as int), 4);
        if sib == 0xFFFF_FFFF {
            Some((seq![off], Ok(())))
        } else {
            match spec_file_chain(table, sib as nat, (fuel - 1) as nat) {
                None => None,
                Some((offs, st)) => Some((seq![off] + offs, st)),
            }
        }
    }
}

/// With more fuel, a chain that ends within its fuel is the same.
pub proof fn lemma_chain_fuel(table: Seq<u8>, off: nat, f1: nat, f2: nat)
    requires
        spec_file_chain(table, off, f1) is Some,
        f1 <= f2,
    ensures
        spec_file_chain(table, off, f2) == spec_file_chain(table, off, f1),
    decreases f1,
{
    if off <= table.len() && spec_file_entry_fits(table.skip(off as int)) {
        let sib = spec_u32_le(table.skip(off as int), 4);
        if sib != 0xFFFF_FFFF {
            lemma_chain_fuel(table, sib as nat, (f1 - 1) as nat, (f2 - 1) as nat);
        }
    }
}

/// Whether the chain of files that starts at the table's start ends.
pub open spec fn file_chain_ends(table: Seq<u8>) -> bool {
    exists|f: nat| #[trigger] spec_file_chain(table, 0, f) is Some
}

/// The chain of files from the table's start, when it ends.
pub open spec fn file_chain(table: Seq<u8>) -> (Seq<nat>, Result<(), BinError>) {
    spec_file_chain(table, 0, choose|f: nat| #[trigger] spec_file_chain(table, 0, f) is Some)->0
}

/// Why a RomFS cannot be read.
#[derive(Debug)]
pub enum RomFsErrors {
    CorruptRomFs(BinError),
}

/// A RomFS, known by its header and the entries of its files.
#[derive(Debug)]
pub struct RomFs {
    pub header: RomFsHeader,
    pub files: Vec<RomFsFileEntry>,
}

impl RomFs {
    /// Reads the files of a RomFS from its file table, whose bytes
    /// `file_meta_table` are the `header.file_meta_table_size` bytes at
    /// `header.file_meta_table_offset`: the chain of entries that starts at
    /// the table's start.
    pub fn new(header: RomFsHeader, file_meta_table: &[u8]) -> (r: Result<RomFs, RomFsErrors>)
        requires
            file_chain_ends(file_meta_table@),
        ensures
            r is Ok <==> file_chain(file_meta_table@).1 is Ok,
            r matches Err(RomFsErrors::CorruptRomFs(e)) ==> file_chain(file_meta_table@).1 == Err::<(), BinError>(e),
            r matches Ok(fs) ==> {
                &&& fs.header == header
                &&& fs.files@.len() == file_chain(file_meta_table@).0.len()
                &&& forall|i: int|
                    0 <= i < fs.files@.len() ==> (#[trigger] fs.files@[i]).read_from(
                        file_meta_table@.skip(file_chain(file_meta_table@).0[i] as int),
                    )
            },
    {
        let ghost table = file_meta_table@;
        let ghost f0 = choose|f: nat| #[trigger] spec_file_chain(table, 0, f) is Some;
        let ghost whole = spec_file_chain(table, 0, f0)->0;
        let mut files: Vec<RomFsFileEntry> = Vec::new();
        let mut sibling: u64 = 0;
        let ghost mut fuel: nat = f0;
        let ghost mut done: Seq<nat> = seq![];
        let len = file_meta_table.len();
        loop
            invariant
                len == table.len(),
                table == file_meta_table@,
                spec_file_chain(table, sibling as nat, fuel) is Some,
                whole == file_chain(table),
                ({
                    let rest = spec_file_chain(table, sibling as nat, fuel)->0;
                    &&& whole.0 == done + rest.0
                    &&& whole.1 == rest.1
                }),
                files@.len() == done.len(),
                forall|i: int| 0 <= i < files@.len() ==> (#[trigger] files@[i]).read_from(table.skip(done[i] as int)),
            decreases fuel,
        {
            let ghost off = sibling as nat;
            assert(off <= table.len());
            let f = match RomFsFileEntry::parse(file_meta_table, sibling as usize) {
                Ok(f) => f,
                Err(e) => {
                    return Err(RomFsErrors::CorruptRomFs(e));
                },
            };
            let next = f.sibling as u64;
            files.push(f);
            proof {
                done = done.push(off);
            }
            if next == 0xFFFF_FFFF {
                proof {
                    assert(whole.0 == done);
                }
                return Ok(RomFs { header, files });
            }
            sibling = next;
            proof {
                fuel = (fuel - 1) as nat;
                assert(seq![off] + (spec_file_chain(table, sibling as nat, fuel)->0).0 == (spec_file_chain(table, off, fuel + 1)->0).0);
                assert(done + (spec_file_chain(table, sibling as nat, fuel)->0).0 == (done.drop_last() + seq![off]) + (spec_file_chain(table, sibling as nat, fuel)->0).0);
            }
        }
    }

    /// The name of a file, decoded as UTF-8.
    pub fn get_name_for_entry(&self, entry: &RomFsFileEntry) -> (r: Result<String, FromUtf8Error>)
        ensures
            r is Ok <==> valid_utf8(entry.name@),
            r matches Ok(s) ==> s@ == decode_utf8(entry.name@),
    {
        let mut bytes: Vec<u8> = Vec::new();
        let mut i: usize = 0;
        while i < entry.name.len()
            invariant
                i <= entry.name@.len(),
                bytes@ == entry.name@.take(i as int),
            decreases entry.name.len() - i,
        {
            bytes.push(entry.name[i]);
            assert(entry.name@.take(i + 1) == entry.name@.take(i as int).push(entry.name@[i as int]));
            i = i + 1;
        }
        assert(entry.name@.take(entry.name@.len() as int) == entry.name@);
        utf8_to_string(bytes)
    }

    /// The region of the file system that holds a file's data.
    pub fn get_file(&self, file: &RomFsFileEntry) -> (r: FileRegion)
        requires
            self.header.data_offset + file.offset <= u64::MAX,
        ensures
            r == (FileRegion { offset: (self.header.data_offset + file.offset) as u64, size: file.size, pos: 0 }),
    {
        FileRegion::new(self.header.data_offset + file.offset, file.size)
    }
}

} // verus!

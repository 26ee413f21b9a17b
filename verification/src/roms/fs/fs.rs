//! Headers of the file systems inside content archives: the section table
//! entries and the file system header with its hash data.
use vstd::prelude::*;
use crate::bytes::{copy_range, read_u16_le, read_u32_le, read_u64_le, spec_u16_le, spec_u32_le, spec_u64_le, BinError};

verus! {

/// Bytes of a media unit, the unit section offsets are counted in.
pub const MEDIA_UNIT: u32 = 0x200;

/// The number of bytes in `media` media units.
pub fn media_to_bytes(media: u32) -> (r: u32)
    requires
        media * 0x200 <= u32::MAX,
    ensures
        r == media * 0x200,
{
    media * MEDIA_UNIT
}

/// A section table entry: where a section starts and ends, in bytes.
#[derive(Debug, Clone, Copy, PartialEq, Eq, Structural)]
pub struct FsEntry {
    pub start_offset: u32,
    pub end_offset: u32,
}

impl FsEntry {
    /// Reads a section table entry at `at`: two numbers of media units
    /// (little-endian, 32 bits), then 8 unused bytes. The offsets must fit
    /// 32 bits once converted to bytes.
    pub fn parse(s: &[u8], at: usize) -> (r: Result<FsEntry, BinError>)
        requires
            at + 8 <= s@.len() ==> spec_u32_le(s@, at as int) * 0x200 <= u32::MAX && spec_u32_le(
                s@,
                at + 4,
            ) * 0x200 <= u32::MAX,
        ensures
            r is Ok <==> at + 8 <= s@.len(),
            r matches Err(e) ==> e == BinError::UnexpectedEof,
            r matches Ok(e) ==> e.start_offset == spec_u32_le(s@, at as int) * 0x200
                && e.end_offset == spec_u32_le(s@, at + 4) * 0x200,
    {
        let len = s.len();
        if at > len || len - at < 8 {
            return Err(BinError::UnexpectedEof);
        }
        let start = read_u32_le(s, at);
        let end = read_u32_le(s, at + 4);
        Ok(FsEntry { start_offset: media_to_bytes(start), end_offset: media_to_bytes(end) })
    }
}

/// The kind of a section's file system.
#[derive(Debug, Clone, Copy, PartialEq, Eq, Structural)]
pub enum FsType {
    RomFS,
    PartitionFs,
}

/// How a section is hashed.
#[derive(Debug, Clone, Copy, PartialEq, Eq, Structural)]
pub enum HashType {
    Auto,
    Unhashed,
    HierarchicalSha256Hash,
    HierarchicalIntegrityHash,
}

/// How a section is encrypted.
#[derive(Debug, Clone, Copy, PartialEq, Eq, Structural)]
pub enum EncryptionType {
    Auto,
    Unencrypted,
    AesXts,
    AesCtr,
    AesCtrEx,
    AesCtrSkipLayerHash,
    AesCtrExSkipLayerHash,
}

/// How a section's metadata is hashed.
#[derive(Debug, Clone, Copy, PartialEq, Eq, Structural)]
pub enum MetadataHashType {
    Unhashed,
    HierarchicalIntegrity,
}

pub open spec fn spec_fs_type(b: u8) -> Option<FsType> {
    if b == 0 {
        Some(FsType::RomFS)
    } else if b == 1 {
        Some(FsType::PartitionFs)
    } else {
        None
    }
}

pub open spec fn spec_hash_type(b: u8) -> Option<HashType> {
    if b == 0 {
        Some(HashType::Auto)
    } else if b == 1 {
        Some(HashType::Unhashed)
    } else if b == 2 {
        Some(HashType::HierarchicalSha256Hash)
    } else if b == 3 {
        Some(HashType::HierarchicalIntegrityHash)
    } else {
        None
    }
}

pub open spec fn spec_encryption_type(b: u8) -> Option<EncryptionType> {
    if b == 0 {
        Some(EncryptionType::Auto)
    } else if b == 1 {
        Some(EncryptionType::Unencrypted)
    } else if b == 2 {
        Some(EncryptionType::AesXts)
    } else if b == 3 {
        Some(EncryptionType::AesCtr)
    } else if b == 4 {
        Some(EncryptionType::AesCtrEx)
    } else if b == 5 {
        Some(EncryptionType::AesCtrSkipLayerHash)
    } else if b == 6 {
        Some(EncryptionType::AesCtrExSkipLayerHash)
    } else {
        None
    }
}

pub open spec fn spec_metadata_hash_type(b: u8) -> Option<MetadataHashType> {
    if b == 0 {
        Some(MetadataHashType::Unhashed)
    } else if b == 1 {
        Some(MetadataHashType::HierarchicalIntegrity)
    } else {
        None
    }
}

/// The byte that stands for each file system type in a section header.
pub open spec fn fs_type_code(t: FsType) -> u8 {
    match t {
        FsType::RomFS => 0,
        FsType::PartitionFs => 1,
    }
}

/// The byte that stands for each hash type in a section header.
pub open spec fn hash_type_code(t: HashType) -> u8 {
    match t {
        HashType::Auto => 0,
        HashType::Unhashed => 1,
        HashType::HierarchicalSha256Hash => 2,
        HashType::HierarchicalIntegrityHash => 3,
    }
}

/// The byte that stands for each encryption type in a section header.
pub open spec fn encryption_type_code(t: EncryptionType) -> u8 {
    match t {
        EncryptionType::Auto => 0,
        EncryptionType::Unencrypted => 1,
        EncryptionType::AesXts => 2,
        EncryptionType::AesCtr => 3,
        EncryptionType::AesCtrEx => 4,
        EncryptionType::AesCtrSkipLayerHash => 5,
        EncryptionType::AesCtrExSkipLayerHash => 6,
    }
}

/// The byte that stands for each metadata hash type in a section header.
pub open spec fn metadata_hash_type_code(t: MetadataHashType) -> u8 {
    match t {
        MetadataHashType::Unhashed => 0,
        MetadataHashType::HierarchicalIntegrity => 1,
    }
}

/// Each type read from a byte of a section header is the one whose number
/// that byte is, and a byte that is no type's number reads as none: reading
/// a type's own byte gives it back, and distinct bytes give distinct types.
pub proof fn lemma_section_type_bytes(b: u8)
    ensures
        forall|t: FsType| (spec_fs_type(b) == Some(t)) <==> fs_type_code(t) == b,
        spec_fs_type(b) is Some <==> b <= 1,
        forall|t: HashType| (spec_hash_type(b) == Some(t)) <==> hash_type_code(t) == b,
        spec_hash_type(b) is Some <==> b <= 3,
        forall|t: EncryptionType| (spec_encryption_type(b) == Some(t)) <==> encryption_type_code(t) == b,
        spec_encryption_type(b) is Some <==> b <= 6,
        forall|t: MetadataHashType| (spec_metadata_hash_type(b) == Some(t)) <==> metadata_hash_type_code(t) == b,
        spec_metadata_hash_type(b) is Some <==> b <= 1,
{
}

impl FsType {
    pub fn from_byte(b: u8) -> (r: Option<FsType>)
        ensures
            r == spec_fs_type(b),
    {
        if b == 0 {
            Some(FsType::RomFS)
        } else if b == 1 {
            Some(FsType::PartitionFs)
        } else {
            None
        }
    }
}

impl HashType {
    pub fn from_byte(b: u8) -> (r: Option<HashType>)
        ensures
            r == spec_hash_type(b),
    {
        if b == 0 {
            Some(HashType::Auto)
        } else if b == 1 {
            Some(HashType::Unhashed)
        } else if b == 2 {
            Some(HashType::HierarchicalSha256Hash)
        } else if b == 3 {
            Some(HashType::HierarchicalIntegrityHash)
        } else {
            None
        }
    }
}

impl EncryptionType {
    pub fn from_byte(b: u8) -> (r: Option<EncryptionType>)
        ensures
            r == spec_encryption_type(b),
    {
        if b == 0 {
            Some(EncryptionType::Auto)
        } else if b == 1 {
            Some(EncryptionType::Unencrypted)
        } else if b == 2 {
            Some(EncryptionType::AesXts)
        } else if b == 3 {
            Some(EncryptionType::AesCtr)
        } else if b == 4 {
            Some(EncryptionType::AesCtrEx)
        } else if b == 5 {
            Some(EncryptionType::AesCtrSkipLayerHash)
        } else if b == 6 {
            Some(EncryptionType::AesCtrExSkipLayerHash)
        } else {
            None
        }
    }
}

impl MetadataHashType {
    pub fn from_byte(b: u8) -> (r: Option<MetadataHashType>)
        ensures
            r == spec_metadata_hash_type(b),
    {
        if b == 0 {
            Some(MetadataHashType::Unhashed)
        } else if b == 1 {
            Some(MetadataHashType::HierarchicalIntegrity)
        } else {
            None
        }
    }
}

/// Where the metadata hash table is and its hash: 32 bytes.
#[derive(Debug)]
pub struct MetadataHashInfo {
    pub table_offset: u64,
    pub table_size: u64,
    pub table_hash: Vec<u8>,
}

impl MetadataHashInfo {
    pub open spec fn read_from(&self, s: Seq<u8>, at: int) -> bool {
        &&& self.table_offset == spec_u64_le(s, at)
        &&& self.table_size == spec_u64_le(s, at + 8)
        &&& self.table_hash@ == s.subrange(at + 16, at + 32)
    }

    fn parse(s: &[u8], at: usize) -> (r: MetadataHashInfo)
        requires
            at + 32 <= s@.len(),
        ensures
            r.read_from(s@, at as int),
    {
        let _len = s.len();
        MetadataHashInfo {
            table_offset: read_u64_le(s, at),
            table_size: read_u64_le(s, at + 8),
            table_hash: copy_range(s, at + 16, at + 32),
        }
    }
}

/// A layer of a SHA-256 hash tree: 16 bytes.
#[derive(Debug, Clone, Copy, PartialEq, Eq, Structural)]
pub struct LayerRegion {
    pub offset: u64,
    pub size: u64,
}

pub open spec fn spec_layer_region(s: Seq<u8>, at: int) -> LayerRegion {
    LayerRegion { offset: spec_u64_le(s, at) as u64, size: spec_u64_le(s, at + 8) as u64 }
}

/// The hash data of a section hashed with a SHA-256 tree: the master hash,
/// the block size, the layer count, 4 unused bytes, then the layers.
#[derive(Debug)]
pub struct HierarchicalSha256Data {
    pub master_hash: Vec<u8>,
    pub block_size: u32,
    pub layer_count: u32,
    pub layer_regions: Vec<LayerRegion>,
}

/// Where the last read of SHA-256 hash data at `at` ends.
pub open spec fn sha256_data_end(s: Seq<u8>, at: int) -> int {
    let lc = spec_u32_le(s, at + 36);
    if lc > 0 {
        at + 44 + 16 * lc
    } else {
        at + 40
    }
}

pub open spec fn sha256_data_fits(s: Seq<u8>, at: int) -> bool {
    s.len() >= at + 40 && s.len() >= sha256_data_end(s, at)
}

impl HierarchicalSha256Data {
    pub open spec fn read_from(&self, s: Seq<u8>, at: int) -> bool {
        &&& self.master_hash@ == s.subrange(at, at + 32)
        &&& self.block_size == spec_u32_le(s, at + 32)
        &&& self.layer_count == spec_u32_le(s, at + 36)
        &&& self.layer_regions@ == Seq::new(
            self.layer_count as nat,
            |i: int| spec_layer_region(s, at + 44 + 16 * i),
        )
    }

    fn parse(s: &[u8], at: usize) -> (r: Option<HierarchicalSha256Data>)
        requires
            at <= 0x1000,
        ensures
            r is Some <==> sha256_data_fits(s@, at as int),
            r matches Some(d) ==> d.read_from(s@, at as int),
    {
        let len = s.len();
        if len < at + 40 {
            return None;
        }
        let lc = read_u32_le(s, at + 36);
        if lc > 0 && (len as u64) < at as u64 + 44 + 16 * lc as u64 {
            return None;
        }
        let mut regions: Vec<LayerRegion> = Vec::new();
        let mut i: u32 = 0;
        while i < lc
            invariant
                i <= lc,
                lc == spec_u32_le(s@, at + 36),
                at <= 0x1000,
                len == s@.len(),
                lc > 0 ==> len >= at + 44 + 16 * lc,
                regions@ == Seq::new(i as nat, |k: int| spec_layer_region(s@, at + 44 + 16 * k)),
            decreases lc - i,
        {
            let p: usize = at + 44 + 16 * (i as usize);
            regions.push(
                LayerRegion { offset: read_u64_le(s, p), size: read_u64_le(s, p + 8) },
            );
            assert(regions@ =~= Seq::new((i + 1) as nat, |k: int| spec_layer_region(s@, at + 44 + 16 * k)));
            i = i + 1;
        }
        Some(
            HierarchicalSha256Data {
                master_hash: copy_range(s, at, at + 32),
                block_size: read_u32_le(s, at + 32),
                layer_count: lc,
                layer_regions: regions,
            },
        )
    }
}

/// A level of an integrity hash tree: 24 bytes, the last 4 unused.
#[derive(Debug, Clone, Copy, PartialEq, Eq, Structural)]
pub struct HierarchicalIntegrityLevel {
    pub logical_offset: u64,
    pub hash_data_size: u64,
    pub block_size: u32,
}

pub open spec fn spec_integrity_level(s: Seq<u8>, at: int) -> HierarchicalIntegrityLevel {
    HierarchicalIntegrityLevel {
        logical_offset: spec_u64_le(s, at) as u64,
        hash_data_size: spec_u64_le(s, at + 8) as u64,
        block_size: spec_u32_le(s, at + 16) as u32,
    }
}

/// The levels of an integrity hash tree: the layer count, six levels and a
/// salt of 32 bytes.
#[derive(Debug)]
pub struct InfoLevelHash {
    pub max_layers: u32,
    pub levels: Vec<HierarchicalIntegrityLevel>,
    pub salt: Vec<u8>,
}

impl InfoLevelHash {
    pub open spec fn read_from(&self, s: Seq<u8>, at: int) -> bool {
        &&& self.max_layers == spec_u32_le(s, at)
        &&& self.levels@ == Seq::new(6, |i: int| spec_integrity_level(s, at + 4 + 24 * i))
        &&& self.salt@ == s.subrange(at + 148, at + 180)
    }

    fn parse(s: &[u8], at: usize) -> (r: InfoLevelHash)
        requires
            at + 180 <= s@.len(),
        ensures
            r.read_from(s@, at as int),
    {
        let len = s.len();
        let mut levels: Vec<HierarchicalIntegrityLevel> = Vec::new();
        let mut i: usize = 0;
        while i < 6
            invariant
                i <= 6,
                len == s@.len(),
                at + 180 <= s@.len(),
                levels@ == Seq::new(i as nat, |k: int| spec_integrity_level(s@, at + 4 + 24 * k)),
            decreases 6 - i,
        {
            let p = at + 4 + 24 * i;
            levels.push(
                HierarchicalIntegrityLevel {
                    logical_offset: read_u64_le(s, p),
                    hash_data_size: read_u64_le(s, p + 8),
                    block_size: read_u32_le(s, p + 16),
                },
            );
            assert(levels@ =~= Seq::new((i + 1) as nat, |k: int| spec_integrity_level(s@, at + 4 + 24 * k)));
            i = i + 1;
        }
        InfoLevelHash {
            max_layers: read_u32_le(s, at),
            levels,
            salt: copy_range(s, at + 148, at + 180),
        }
    }
}

/// The hash data of a section hashed with an integrity tree: the magic
/// `IVFC`, the version, the master hash size, the levels, the master hash
/// and 0x18 unused bytes.
#[derive(Debug)]
pub struct HierarchicalIntegrity {
    pub version: u32,
    pub master_hash_size: u32,
    pub info_level_hash: InfoLevelHash,
    pub master_hash: Vec<u8>,
}

pub open spec fn ivfc_magic() -> Seq<u8> {
    seq![0x49u8, 0x56u8, 0x46u8, 0x43u8]
}

pub open spec fn integrity_fits(s: Seq<u8>, at: int) -> bool {
    s.len() >= at + 224 && s.subrange(at, at + 4) == ivfc_magic()
}

impl HierarchicalIntegrity {
    pub open spec fn read_from(&self, s: Seq<u8>, at: int) -> bool {
        &&& self.version == spec_u32_le(s, at + 4)
        &&& self.master_hash_size == spec_u32_le(s, at + 8)
        &&& self.info_level_hash.read_from(s, at + 12)
        &&& self.master_hash@ == s.subrange(at + 192, at + 224)
    }

    fn parse(s: &[u8], at: usize) -> (r: Option<HierarchicalIntegrity>)
        requires
            at <= 0x1000,
        ensures
            r is Some <==> integrity_fits(s@, at as int),
            r matches Some(h) ==> h.read_from(s@, at as int),
    {
        let len = s.len();
        if len < 4 || at > len - 4 {
            return None;
        }
        if s[at] != 0x49 || s[at + 1] != 0x56 || s[at + 2] != 0x46 || s[at + 3] != 0x43 {
            assert(s@.subrange(at as int, at + 4) != ivfc_magic()) by {
                if s@.subrange(at as int, at + 4) == ivfc_magic() {
                    assert(s@.subrange(at as int, at + 4)[0] == s@[at as int]);
                    assert(s@.subrange(at as int, at + 4)[1] == s@[at + 1]);
                    assert(s@.subrange(at as int, at + 4)[2] == s@[at + 2]);
                    assert(s@.subrange(at as int, at + 4)[3] == s@[at + 3]);
                }
            }
            return None;
        }
        assert(s@.subrange(at as int, at + 4) =~= ivfc_magic());
        if len < at + 224 {
            return None;
        }
        Some(
            HierarchicalIntegrity {
                version: read_u32_le(s, at + 4),
                master_hash_size: read_u32_le(s, at + 8),
                info_level_hash: InfoLevelHash::parse(s, at + 12),
                master_hash: copy_range(s, at + 192, at + 224),
            },
        )
    }
}

/// The hash data of a section: an integrity tree if it reads as one, else a
/// SHA-256 tree.
#[derive(Debug)]
pub enum HashData {
    HierarchicalIntegrity(HierarchicalIntegrity),
    HierarchicalSha256(HierarchicalSha256Data),
}

impl HashData {
    /// Where the hash data that starts at `at` ends.
    pub open spec fn end(&self, at: int) -> int {
        match self {
            HashData::HierarchicalIntegrity(_) => at + 248,
            HashData::HierarchicalSha256(d) => at + 44 + 16 * d.layer_count,
        }
    }

    pub open spec fn read_from(&self, s: Seq<u8>, at: int) -> bool {
        match self {
            HashData::HierarchicalIntegrity(h) => integrity_fits(s, at) && h.read_from(s, at),
            HashData::HierarchicalSha256(d) => !integrity_fits(s, at) && sha256_data_fits(s, at)
                && d.read_from(s, at),
        }
    }
}

/// The header of a section's file system.
#[derive(Debug)]
pub struct FsHeader {
    pub version: u16,
    pub fs_type: FsType,
    pub hash_type: HashType,
    pub encryption_type: EncryptionType,
    pub meta_hash_type: MetadataHashType,
    pub hash_data: HashData,
    pub meta_hash_data_info: MetadataHashInfo,
    /// The counter of the section's encryption, at 0x140.
    pub ctr: u64,
}

/// Whether a file system header can be read from `s`, field by field: the
/// version, four kinds that must name a variant, 2 unused bytes, the hash
/// data at 8, the metadata hash information after it, and the counter at
/// 0x140.
pub open spec fn spec_fs_header_check(s: Seq<u8>) -> Result<(), BinError> {
    if s.len() < 3 {
        Err(BinError::UnexpectedEof)
    } else if spec_fs_type(s[2]) is None {
        Err(BinError::NoVariantMatch)
    } else if s.len() < 4 {
        Err(BinError::UnexpectedEof)
    } else if spec_hash_type(s[3]) is None {
        Err(BinError::NoVariantMatch)
    } else if s.len() < 5 {
        Err(BinError::UnexpectedEof)
    } else if spec_encryption_type(s[4]) is None {
        Err(BinError::NoVariantMatch)
    } else if s.len() < 6 {
        Err(BinError::UnexpectedEof)
    } else if spec_metadata_hash_type(s[5]) is None {
        Err(BinError::NoVariantMatch)
    } else if !integrity_fits(s, 8) && !sha256_data_fits(s, 8) {
        Err(BinError::NoVariantMatch)
    } else if s.len() < (if integrity_fits(s, 8) {
        256
    } else {
        52 + 16 * spec_u32_le(s, 44)
    }) + 32 {
        Err(BinError::UnexpectedEof)
    } else if s.len() < 0x148 {
        Err(BinError::UnexpectedEof)
    } else {
        Ok(())
    }
}

impl FsHeader {
    pub open spec fn read_from(&self, s: Seq<u8>) -> bool {
        &&& self.version == spec_u16_le(s, 0)
        &&& Some(self.fs_type) == spec_fs_type(s[2])
        &&& Some(self.hash_type) == spec_hash_type(s[3])
        &&& Some(self.encryption_type) == spec_encryption_type(s[4])
        &&& Some(self.meta_hash_type) == spec_metadata_hash_type(s[5])
        &&& self.hash_data.read_from(s, 8)
        &&& self.meta_hash_data_info.read_from(s, self.hash_data.end(8))
        &&& self.ctr == spec_u64_le(s, 0x140)
    }

    /// Reads a file system header.
    pub fn parse(s: &[u8]) -> (r: Result<FsHeader, BinError>)
        ensures
            r matches Err(e) ==> spec_fs_header_check(s@) == Err::<(), BinError>(e),
            r is Ok <==> spec_fs_header_check(s@) is Ok,
            r matches Ok(h) ==> h.read_from(s@),
    {
        let len = s.len();
        if len < 3 {
            return Err(BinError::UnexpectedEof);
        }
        let fs_type = match FsType::from_byte(s[2]) {
            Some(t) => t,
            None => {
                return Err(BinError::NoVariantMatch);
            },
        };
        if len < 4 {
            return Err(BinError::UnexpectedEof);
        }
        let hash_type = match HashType::from_byte(s[3]) {
            Some(t) => t,
            None => {
                return Err(BinError::NoVariantMatch);
            },
        };
        if len < 5 {
            return Err(BinError::UnexpectedEof);
        }
        let encryption_type = match EncryptionType::from_byte(s[4]) {
            Some(t) => t,
            None => {
                return Err(BinError::NoVariantMatch);
            },
        };
        if len < 6 {
            return Err(BinError::UnexpectedEof);
        }
        let meta_hash_type = match MetadataHashType::from_byte(s[5]) {
            Some(t) => t,
            None => {
                return Err(BinError::NoVariantMatch);
            },
        };
        let hash_data = match HierarchicalIntegrity::parse(s, 8) {
            Some(h) => HashData::HierarchicalIntegrity(h),
            None => match HierarchicalSha256Data::parse(s, 8) {
                Some(d) => HashData::HierarchicalSha256(d),
                None => {
                    return Err(BinError::NoVariantMatch);
                },
            },
        };
        let p: u64 = match &hash_data {
            HashData::HierarchicalIntegrity(_) => 256,
            HashData::HierarchicalSha256(d) => 52 + 16 * d.layer_count as u64,
        };
        if (len as u64) < p + 32 {
            return Err(BinError::UnexpectedEof);
        }
        if len < 0x148 {
            return Err(BinError::UnexpectedEof);
        }
        let info = MetadataHashInfo::parse(s, p as usize);
        Ok(
            FsHeader {
                version: read_u16_le(s, 0),
                fs_type,
                hash_type,
                encryption_type,
                meta_hash_type,
                hash_data,
                meta_hash_data_info: info,
                ctr: read_u64_le(s, 0x140),
            },
        )
    }
}

} // verus!

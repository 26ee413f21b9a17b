//! Game card images (XCI): the card header.
use vstd::prelude::*;
use crate::bytes::{copy_range, read_u64_le, spec_u64_le, BinError};

verus! {

/// The capacity of a game card, as its header codes it.
#[allow(non_camel_case_types)]
#[derive(Debug, Clone, Copy, PartialEq, Eq, Structural)]
pub enum CardSize {
    _1GB,
    _2GB,
    _4GB,
    _8GB,
    _16GB,
    _32GB,
}

/// The card size a header byte codes, if any.
pub open spec fn spec_card_size(b: u8) -> Option<CardSize> {
    if b == 0xFA {
        Some(CardSize::_1GB)
    } else if b == 0xF8 {
        Some(CardSize::_2GB)
    } else if b == 0xF0 {
        Some(CardSize::_4GB)
    } else if b == 0xE0 {
        Some(CardSize::_8GB)
    } else if b == 0xE1 {
        Some(CardSize::_16GB)
    } else if b == 0xE2 {
        Some(CardSize::_32GB)
    } else {
        None
    }
}

impl CardSize {
    pub fn from_byte(b: u8) -> (r: Option<CardSize>)
        ensures
            r == spec_card_size(b),
    {
        if b == 0xFA {
            Some(CardSize::_1GB)
        } else if b == 0xF8 {
            Some(CardSize::_2GB)
        } else if b == 0xF0 {
            Some(CardSize::_4GB)
        } else if b == 0xE0 {
            Some(CardSize::_8GB)
        } else if b == 0xE1 {
            Some(CardSize::_16GB)
        } else if b == 0xE2 {
            Some(CardSize::_32GB)
        } else {
            None
        }
    }
}

/// Number of bytes of a card image that its header is read from.
pub const XCI_HEADER_READ_SIZE: usize = 0x140;

/// The header of a game card.
#[derive(Debug)]
pub struct XciHeader {
    /// The four bytes at 0x100; `HEAD` for a card image.
    pub magic: Vec<u8>,
    pub title_key_dec_index: u8,
    pub rom_size: CardSize,
    pub version: u8,
    /// Where the root HFS0 partition's header is, and its size.
    pub hfs_header_offset: u64,
    pub hfs_header_size: u64,
}

/// Whether a card header can be read from `s`: enough bytes, and a known
/// card size at 0x10D.
pub open spec fn spec_xci_header_check(s: Seq<u8>) -> Result<(), BinError> {
    if s.len() < 0x10E {
        Err(BinError::UnexpectedEof)
    } else if spec_card_size(s[0x10D]) is None {
        Err(BinError::NoVariantMatch)
    } else if s.len() < 0x140 {
        Err(BinError::UnexpectedEof)
    } else {
        Ok(())
    }
}

impl XciHeader {
    /// Whether the header holds what the bytes `s` hold.
    pub open spec fn read_from(&self, s: Seq<u8>) -> bool {
        &&& self.magic@ == s.subrange(0x100, 0x104)
        &&& self.title_key_dec_index == s[0x10C]
        &&& Some(self.rom_size) == spec_card_size(s[0x10D])
        &&& self.version == s[0x10E]
        &&& self.hfs_header_offset == spec_u64_le(s, 0x130)
        &&& self.hfs_header_size == spec_u64_le(s, 0x138)
    }

    /// Reads a card header from the first 0x140 bytes of a card image.
    pub fn parse(s: &[u8]) -> (r: Result<XciHeader, BinError>)
        ensures
            r matches Err(e) ==> spec_xci_header_check(s@) == Err::<(), BinError>(e),
            r is Ok <==> spec_xci_header_check(s@) is Ok,
            r matches Ok(h) ==> h.read_from(s@),
    {
        if s.len() < 0x10E {
            return Err(BinError::UnexpectedEof);
        }
        let rom_size = match CardSize::from_byte(s[0x10D]) {
            Some(c) => c,
            None => {
                return Err(BinError::NoVariantMatch);
            },
        };
        if s.len() < XCI_HEADER_READ_SIZE {
            return Err(BinError::UnexpectedEof);
        }
        Ok(
            XciHeader {
                magic: copy_range(s, 0x100, 0x104),
                title_key_dec_index: s[0x10C],
                rom_size,
                version: s[0x10E],
                hfs_header_offset: read_u64_le(s, 0x130),
                hfs_header_size: read_u64_le(s, 0x138),
            },
        )
    }
}

/// Why a card image is refused.
#[derive(Debug)]
pub enum XciErrors {
    /// The header cannot be read.
    CorruptXci(BinError),
    /// The magic is not `HEAD`; it is the bytes given.
    InvalidMagic(Vec<u8>),
}

pub open spec fn head_magic() -> Seq<u8> {
    seq![72u8, 69u8, 65u8, 68u8]
}

/// A game card image, known by its header.
#[derive(Debug)]
pub struct Xci {
    pub header: XciHeader,
}

impl Xci {
    /// Reads a card image from its first 0x140 bytes; the magic must be `HEAD`.
    pub fn new(s: &[u8]) -> (r: Result<Xci, XciErrors>)
        ensures
            (r matches Err(XciErrors::CorruptXci(_))) <==> spec_xci_header_check(s@) is Err,
            r matches Err(XciErrors::CorruptXci(e)) ==> spec_xci_header_check(s@) == Err::<(), BinError>(e),
            r matches Err(XciErrors::InvalidMagic(m)) ==> spec_xci_header_check(s@) is Ok && m@
                == s@.subrange(0x100, 0x104) && m@ != head_magic(),
            r is Ok <==> spec_xci_header_check(s@) is Ok && s@.subrange(0x100, 0x104) == head_magic(),
            r matches Ok(x) ==> x.header.read_from(s@),
    {
        let h = match XciHeader::parse(s) {
            Ok(h) => h,
            Err(e) => {
                return Err(XciErrors::CorruptXci(e));
            },
        };
        if h.magic[0] != 72 || h.magic[1] != 69 || h.magic[2] != 65 || h.magic[3] != 68 {
            assert(h.magic@ != head_magic()) by {
                if h.magic@ == head_magic() {
                    assert(h.magic@[0] == 72);
                }
            }
            return Err(XciErrors::InvalidMagic(h.magic));
        }
        assert(h.magic@ =~= head_magic());
        Ok(Xci { header: h })
    }

    /// Opening a partition of the card by name does nothing yet.
    pub fn open_partition(&mut self, partition: String)
        ensures
            *final(self) == *old(self),
    {
    }
}

} // verus!

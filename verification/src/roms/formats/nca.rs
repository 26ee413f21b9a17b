//! Content archives (NCA).
use vstd::prelude::*;
use crate::roms::keyring::Keyring;

verus! {

/// Size of the encrypted header of a content archive.
pub const NCA_HEADER_SIZE: usize = 0xC00;

/// The header of a content archive; its fields are not read yet.
#[derive(Debug)]
pub struct NcaHeader {}

/// A content archive, with the keyring its header is decrypted with.
#[derive(Debug)]
pub struct Nca {
    pub header: NcaHeader,
    pub keyring: Keyring,
}

impl Nca {
    /// A content archive that keeps the given keyring.
    pub fn new(keyring: Keyring) -> (r: Self)
        ensures
            r.keyring == keyring,
    {
        Nca { header: NcaHeader {  }, keyring }
    }
}

} // verus!

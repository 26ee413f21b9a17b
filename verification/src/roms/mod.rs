//! Nintendo Switch ROM formats: partition file systems, RomFS, XCI cards,
//! control data, and the keyring.
pub mod crypto;
pub mod formats;
pub mod fs;
pub mod keyring;
pub mod readers;

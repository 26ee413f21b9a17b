//! File systems found in ROMs.
#[allow(clippy::module_inception)]
pub mod fs;
pub mod hfs;
pub mod pfs;
pub mod romfs;

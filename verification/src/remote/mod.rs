//! Network install: the addresses used, the list of files announced to the
//! console, and the byte-range rules of the file server.
pub mod payload;
pub mod range;

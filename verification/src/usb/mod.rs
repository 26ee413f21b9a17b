//! USB install: the protocol spoken with the console and how devices are found.
pub mod protocol;
pub mod manager;

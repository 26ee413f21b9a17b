//! Verified core of Lift: the Nintendo Switch ROM formats it reads, the
//! keyring text format, the USB install protocol framing, the network
//! install range logic and the decisions the user interface takes.
#![allow(unused_imports)]

pub mod bytes;
pub mod text;
pub mod remote;
pub mod usb;
pub mod roms;
pub mod utils;
pub mod rom_data;
pub mod rom_info;
pub mod ui;

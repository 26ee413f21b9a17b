//! ROM containers and the data found in them.
pub mod nacp;
pub mod nca;
pub mod xci;

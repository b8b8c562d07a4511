//! A descriptor leaf that wraps a single pre-validated address: it derives
//! the spending scripts the address stands for and serializes to, and parses
//! from, the checksummed textual form `addr(<address>)#<checksum>`.

pub mod address;
pub mod checksum;
pub mod descriptor;
pub mod error;
pub mod expression;
pub mod script;

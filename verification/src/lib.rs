//! A position-tracked reader over an in-memory byte buffer, together with
//! fixed-width integer codecs for little-endian and big-endian byte order.

pub mod radix;
mod endian;
pub mod serialization;
pub mod error;
pub mod data_interface;
pub mod binary_reader;

pub use binary_reader::BinaryReader;
pub use error::ReadError;

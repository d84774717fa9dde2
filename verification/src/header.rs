//! The header of the earlier packet layout.
pub use crate::packet::header::{Header, HeaderInfo, ENCODED_SIZE};

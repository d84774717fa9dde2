//! The header of the first packet layout, which the later layout kept.
pub use crate::packet::header::{Generic, Header, HeaderInfo, ENCODED_SIZE};

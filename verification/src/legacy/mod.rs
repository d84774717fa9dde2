//! The first version of the protocol's types: hosts in each connection state, and packets with
//! a header and a footer.
pub mod header;
pub mod hosts;
pub mod packets;
pub mod server;

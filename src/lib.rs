//! A small request/response service: clients send one framed protobuf
//! envelope per read and get one encoded reply back. This crate holds the
//! wire codec and the decisions of the connection and listener loops.

pub mod varint;
pub mod codec;
pub mod connection;
pub mod lifecycle;

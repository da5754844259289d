//! The control plane of a sandbox: how a running sandbox is named, found and
//! questioned.
//!
//! Every sandbox owns one abstract Unix stream socket, `\0sandlock/<uid>/<name>`.
//! A client connects to it, sends one request, reads one response and is done.
//! Both travel as a four-byte big-endian length followed by that many bytes of
//! JSON. This crate holds every rule of that exchange, and writes its messages;
//! sockets, clocks and the JSON reader of the message types stay with the caller.

pub mod address;
pub mod client;
pub mod discovery;
pub mod frame;
pub mod json;
pub mod order;
pub mod protocol;
pub mod server;
pub mod table;
pub mod text;

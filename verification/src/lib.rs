//! Core of a local static-file server with a live-reload channel.
//!
//! The library holds the decisions of the server as functions on plain
//! values: how an incoming connection is classified, how a request is turned
//! into a file to read and a response head, how a push-socket upgrade is
//! answered, how a reload frame is laid out, when a filesystem event starts a
//! build, and which build result a waiting session is handed. Sockets, files,
//! threads and locks belong to the program around it.
pub mod acceptor;
pub mod crypto;
pub mod frame;
pub mod handshake;
pub mod header;
pub mod header_lines;
pub mod mime;
pub mod pipeline;
pub mod responder;
pub mod session;
pub mod text;
pub mod wake;
pub mod watcher;

//! airnc: share a file on the local network. The sender serves the file over
//! HTTP at a link shown as a QR code in the terminal, and can register the
//! link with a link service, which keeps the registered links in a database
//! and lists them.
//!
//! This crate holds the decisions of both programs, each with its contract:
//! the command line check, the address and link of a shared file, the choice
//! of a port, the picture of the QR code, the loop that streams the file, the
//! statements the link service sends to its database, and what both ends do
//! with websocket messages.

pub mod address;
pub mod cli;
pub mod client;
pub mod port;
pub mod qr;
pub mod queries;
pub mod registry;
pub mod text;
pub mod transfer;

//! The transport between the link and the server.

pub mod ws;

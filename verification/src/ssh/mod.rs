//! The protocol over a secure shell.

pub mod channel;
pub mod ssh_client;
pub mod ssh_server;

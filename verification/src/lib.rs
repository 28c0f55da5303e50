//! An IMAP4rev1-style mail server front end: line framing, a command
//! parser, per-connection session state, a connection registry, and a
//! command dispatcher, with credential checking and folder storage
//! reached through narrow trusted boundaries.

pub mod authenticate;
pub mod cli;
pub mod codec;
pub mod commands;
pub mod database;
pub mod helper;
pub mod laws;
pub mod mailbox;
pub mod models;
pub mod parser;
pub mod passwords;
pub mod registry;
pub mod request;
pub mod response;
pub mod server;
pub mod service;
pub mod session;

use vstd::prelude::*;

verus! {

} // verus!

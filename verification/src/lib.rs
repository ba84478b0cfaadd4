//! A remote file manager core: sessions, transfers, archives and file
//! operations against a per-user directory tree on one remote host.

use vstd::prelude::*;

pub mod archive;
pub mod commands;
pub mod failure;
pub mod fileops;
pub mod host;
pub mod listing;
pub mod packing;
pub mod paths;
pub mod protocol;
pub mod removal;
pub mod session;
pub mod stat;
pub mod text;
pub mod transfer;
pub mod workspace;

verus! {

/// Size of the transfer buffer, in bytes.
pub const CHUNK_SIZE: usize = 1048576;

} // verus!

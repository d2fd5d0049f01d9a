//! A symlink-farm manager: packages from a source tree are linked into a
//! target tree, with versioned source directories, profile-based selection,
//! persisted state, and a background monitor daemon driven over a local
//! socket.
//!
//! All filesystem effects are described against an explicit model of the
//! observed directory entries, so the linking engine, the version resolver,
//! the wire codec and the daemon decision logic are verified; the thin
//! process, socket and file plumbing around them lives outside the library.

pub mod app;
pub mod config;
pub mod daemon;
pub mod dict;
pub mod error;
pub mod escape;
pub mod fsmodel;
pub mod ipc;
pub mod linker;
pub mod linker_laws;
pub mod monitor;
pub mod prelude;
pub mod state;
pub mod statefile;
pub mod strutil;

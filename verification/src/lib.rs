//! A programmable virtual filesystem for sandboxes.
//!
//! [`vfs::VirtualFs`] owns everything that a FUSE session needs (inodes, lookup
//! references, open handles, directory snapshots and their pages) and delegates
//! the meaning of each operation to a provider, an implementation of
//! [`path_fs::PathFs`] that is addressed by absolute guest path. A provider may
//! live in another process: [`rpc`] holds both ends of the bridge to it.
//!
//! What the functions do is stated in terms of mathematical models:
//!
//! - [`tables`] models the inode and handle tables as maps, and every change to
//!   them as a function from state to state; [`invariants`] states what all of
//!   these changes keep.
//! - [`replies`] states which call of a provider a reply came out of. Nothing is
//!   supposed of a reply: the contracts hold for every one.
//! - [`paths`] and [`name_validation`] say which paths and names a guest can
//!   reach, [`dirent`] and [`paging`] what a directory listing shows.
//! - [`laws`] states what each operation is for, in terms of what goes into a
//!   call and what comes out of it.
//! - [`platform`], [`abi`], [`time`], [`clock`] and [`wire`] hold the values that
//!   the guest, the host and the wire speak.

pub mod abi;
pub mod bytes;
pub mod clock;
pub mod config;
pub mod dirent;
pub mod error;
pub mod invariants;
pub mod laws;
pub mod name_validation;
pub mod paging;
pub mod path_fs;
pub mod paths;
pub mod platform;
pub mod replies;
pub mod rpc;
pub mod stat;
pub mod tables;
pub mod time;
pub mod vfs;
pub mod wire;

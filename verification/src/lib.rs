//! Mirroring a directory from one peer onto another.
//!
//! The sender describes its directory by a manifest, a list of paths with
//! the digests of the files there. The receiver compares it with the
//! manifest of its own copy, fetches what it lacks, one file at a time, and
//! removes what the sender does not list. Afterwards its copy matches the
//! sender's manifest.
//!
//! Nothing here touches the network or the disk. The two sides of a
//! synchronization are state machines ([`initiator`], [`responder`]) that
//! are told what has happened and answer what to do next; the caller owns
//! the stream and the files.
//!
//! - [`digest`]: the digest of a file's content
//! - [`path`]: the paths that may stand in a manifest
//! - [`manifest`]: manifests
//! - [`builder`]: the manifest of a directory, from what a walk found
//! - [`diff`]: what to fetch and what to delete
//! - [`codec`]: the frames on the wire
//! - [`session`]: phases, events and actions
//! - [`initiator`], [`responder`]: the two sides of a synchronization
//! - [`identity`]: keys and the aliases of peers
//! - [`locks`]: one session per mirror directory
//! - [`layout`]: directories, key files and protocol tags
//! - [`command`]: the commands of the command line
//! - [`error`]: what can go wrong
//! - [`text`]: comparing strings and bytes

pub mod builder;
pub mod codec;
pub mod command;
pub mod diff;
pub mod digest;
pub mod error;
pub mod identity;
pub mod initiator;
pub mod layout;
pub mod locks;
pub mod manifest;
pub mod path;
pub mod responder;
pub mod session;
pub mod text;

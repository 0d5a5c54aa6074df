//! A library for packaging plugin files into a single compressed artifact
//! and for unpacking such an artifact back into a name-to-content mapping.
//!
//! The container format is a concatenation of length-prefixed records,
//! compressed as one brotli stream.  A watch/rebuild component decides,
//! from debounced filesystem events, when a rebuild and repack is due.

pub mod codec;
pub mod compress;
pub mod laws;
pub mod manifest;
pub mod packer;
pub mod paths;
pub mod unpacker;
pub mod watcher;

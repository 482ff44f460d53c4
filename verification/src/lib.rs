//! An in-memory filesystem volume whose inode records can be kept as QR
//! symbols: a fixed pool of inode slots and data blocks, the directory graph
//! on top of it, the filesystem operations, and the record and image codecs.

pub mod inode;
pub mod disk;
pub mod names;
pub mod codec;
pub mod clock;
pub mod fs;
pub mod invariants;
pub mod laws;
pub mod qr;
pub mod persist;

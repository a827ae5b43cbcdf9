//! Checksum-verified copying of directory trees, with a media hash list.
//!
//! This library holds what such a copy decides and computes, and proves it:
//!
//! - [`walk`]: which entries of a directory tree are copied, and in what order;
//! - [`digest`], [`hex`]: incremental hashing with MD5, SHA-1 or XXH64, and the
//!   digest as a fixed-width hexadecimal string that does not depend on how
//!   the bytes were cut into chunks;
//! - [`transfer`], [`throughput`]: one file's passage chunk by chunk, and the
//!   smoothed transfer rate and its display;
//! - [`verify`]: the comparison by which a copy is accepted;
//! - [`run`]: the plan for each file, the state that each file ends in, and the
//!   log of a run, into whose hash list only verified files enter;
//! - [`manifest`], [`markup`], [`timestamp`]: the hash list as a document;
//! - [`reader`]: the hash list read back.
//!
//! Reading and writing files, the clock and the command line are the caller's.
//! The hash functions, the calendar and the XML writer are those of the crates
//! `md-5`, `sha1`, `xxhash-rust`, `chrono` and `xml-rs`; what is assumed of them
//! is stated where they are called.

pub mod algorithm;
pub mod digest;
pub mod hex;
pub mod manifest;
pub mod markup;
pub mod reader;
pub mod run;
pub mod text;
pub mod throughput;
pub mod timestamp;
pub mod transfer;
pub mod verify;
pub mod walk;

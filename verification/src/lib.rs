//! MD5 message digest over byte sequences, one-shot and incremental.
//!
//! The digest is specified as a mathematical function of the message
//! ([`md5_core::md5`]); the executable code is proved to compute it, and the
//! incremental interface is proved to agree with the one-shot one however the
//! message is cut into pieces.

pub mod words;
pub mod tables;
pub mod compress;
pub mod padding;
pub mod md5_core;
pub mod chunking;

//! Resumable discovery of smart-contract instantiation events.
//!
//! The library holds the verified core of the pipeline: the checkpoint state
//! and its codec, the event parser that extracts contract mentions from
//! transaction logs, the per-address outcome logic of the metadata resolver,
//! and the page-by-page decisions of the discovery loop.  The unverified
//! binary around it performs the network and file I/O and hands the results
//! back as plain values.

pub mod parser;
pub mod records;
pub mod resolver;
pub mod codec;
pub mod discovery;

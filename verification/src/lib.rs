//! Core of a scripting capability bridge: named-context path resolution,
//! dual-mode path join/split, value marshaling, file-access decisions and a
//! glob-based listing engine, with thin JSON and template codecs.
//!
//! Everything that computes is here and verified; the surrounding runtime
//! performs the filesystem and script-engine work and hands plain values in.

pub mod error;
pub mod fileops;
pub mod globs;
pub mod hbs;
pub mod jsoncodec;
pub mod laws;
pub mod listing;
pub mod marshal;
pub mod meta;
pub mod paths;
pub mod resolver;
pub mod testsupport;

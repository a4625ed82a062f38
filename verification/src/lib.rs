//! Preview cache and streaming library.
//!
//! Prepares a streamable preview of a large media file without re-encoding
//! the whole asset up front: derives a cache key from file identity and
//! request parameters, lays out an on-disk cache entry per key, detects
//! readiness from the entry's manifest, coordinates single-flight transcode
//! jobs, and routes requests of an embedded file server that exposes cache
//! entries by opaque id with path-traversal protection.
//!
//! Every decision is a function from plain values to plain values: the
//! caller owns the filesystem reads, process launches, sockets and sleeps,
//! and feeds their outcomes in.

pub mod assoc;
pub mod jobs;
pub mod key;
pub mod manifest;
pub mod resolver;
pub mod server;
pub mod split;
pub mod text;

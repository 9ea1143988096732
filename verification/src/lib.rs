//! A persistent compilation cache for OpenCL programs.
//!
//! Compiling a kernel source for a device is slow and deterministic in
//! (source, build options, device identity, platform version), so the
//! compiled per-device binary can be stored under a content address and
//! loaded instead of recompiled.  This crate holds the verified core:
//! the key derivation, the pluggable byte store behind the engine, and
//! the engine itself, which partitions a device list into cache hits and
//! misses, persists freshly compiled binaries, and reassembles the
//! per-device binary vector in the caller's order.
//!
//! The OpenCL driver itself is a foreign C library: every call into it
//! (compiling, extracting binaries, querying build logs, constructing a
//! program from binaries) is performed by the embedding program, which
//! feeds the results back into the engine as plain values.  The engine's
//! contracts state what is read from and written to the store, and what
//! the reassembled binaries are, for every possible driver outcome.

pub mod cache;
pub mod cl;
pub mod demo;
pub mod registry;

//! Core logic of a desktop launcher for a voxel game engine.
//!
//! The library models how a named release maps to a runnable artifact
//! (a prebuilt binary, a buildable source snapshot, or an already
//! acquired local build), resolves a catalog of releases to such
//! descriptors, reads and writes the per-version sidecar file that
//! persists a descriptor across restarts, and drives the acquisition
//! state machine that downloads, unpacks, builds and finally launches
//! a version.  All I/O (network, processes, filesystem, UI) lives in a
//! thin unverified shell around this crate.

pub mod catalog;
pub mod codec;
pub mod config;
pub mod descriptor;
pub mod engine;
pub mod paths;
pub mod text;

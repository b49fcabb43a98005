//! Packs a compiler toolchain and the shared libraries it needs into one
//! reproducible archive.
//!
//! The library holds the decisions: run-path token expansion, the library
//! search order, the dependency closure walk and the archive layout, the
//! streaming checksum and the cache's change detection.

pub mod archive;
pub mod cache;
pub mod compiler;
pub mod csum;
pub mod elfdeps;
pub mod locate;
pub mod runpath;
pub mod solver;

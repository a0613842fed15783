//! A personal package manager library: manifests, a zip-backed archive
//! codec, move/copy file-transfer planning, and the install/run/remove
//! lifecycle over a fixed per-user resource layout.
//!
//! All filesystem and process effects are described as plans of plain
//! actions; a thin runner outside this crate carries them out.

pub mod archive;
pub mod error;
pub mod filetransfer;
pub mod json;
pub mod package;
pub mod program;
pub mod paths;
pub mod strutil;

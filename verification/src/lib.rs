//! The read-write overlay driver for XFS volumes, without its I/O.
//!
//! A volume is an XFS image that is never written to, with an in-memory
//! overlay on top of it that takes every change. This crate holds the rules
//! of that arrangement: what a path resolves to, what a read or a write
//! does, how a directory listing is merged, how a symbolic link is spelled
//! for Windows, and which status each refused request is answered with.
//! Reading the image and talking to the file system host is left to the
//! program around it, which hands the answers in as plain values.

pub mod context;
pub mod device;
pub mod info;
pub mod kinds;
pub mod laws;
pub mod listing;
pub mod mount;
pub mod overlay;
pub mod path;
pub mod reparse;
pub mod status;
pub mod text;
pub mod utf16;

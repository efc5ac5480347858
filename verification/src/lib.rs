//! Chunked upload engine for a remote blob store.
//!
//! The library turns a local file's length and a chunking parameter into the
//! exact, deterministic sequence of remote write operations needed to upload
//! the file, for two object layouts:
//!
//! * block-structured objects, committed through an ordered block list
//!   ([`block_driver`]), and
//! * page-structured objects, mutated through 512-byte-aligned range writes
//!   ([`page_driver`]).
//!
//! The remote operations themselves (block write, block-list commit, page
//! write) are opaque collaborators performed by the caller; the drivers here
//! decide what to send and in which order, and those decisions carry proofs:
//! alignment and padding of every page range, monotonicity and completeness of
//! the committed block list, and exact coverage of the padded object.

pub mod align;
pub mod block_driver;
pub mod block_id;
pub mod commands;
pub mod cursor;
pub mod keyval;
pub mod options;
pub mod page_driver;

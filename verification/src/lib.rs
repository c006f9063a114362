//! An index that shows the messages one has saved as files in folders.
//!
//! The messages live in one remote stream that knows no folders, no names
//! and no moves. This library holds what it takes to show them as a tree:
//! the local index with its two tables, the rules that give a file its kind,
//! its name and its place, the operations that move, rename, recycle, restore
//! and delete files and whole folders, the ordered and paged listings, and
//! the bookkeeping that pulls the remote history into the index piece by
//! piece.
//!
//! The library decides and computes; it does not talk to the remote side or
//! to the disk. Its functions take and give plain values and are verified
//! against their contracts.

pub mod account;
pub mod backfill;
pub mod backfill_laws;
pub mod cache;
pub mod engine;
pub mod engine_laws;
pub mod files;
pub mod folder_laws;
pub mod ingest;
pub mod listing;
pub mod model;
pub mod naming;
pub mod order;
pub mod origin_laws;
pub mod path_laws;
pub mod paths;
pub mod recycle_laws;
pub mod remote;
pub mod removal;
pub mod store;
pub mod store_laws;
pub mod sync;
pub mod text;
pub mod thumbs;
pub mod tree;
pub mod upload;

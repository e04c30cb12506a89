//! Incremental bulk conversion of files.
//!
//! A profile names a source root, an output root, two file extensions, a
//! conversion engine with its options, and patterns of what to ignore. A run
//! walks the source root of each profile and converts the files that changed
//! since they were last converted; what was converted is noted per profile
//! and file, with the file's modification time.
//!
//! This library holds the decisions of such a run, over plain values:
//!
//! - [`staleness`]: whether a file has to be converted again;
//! - [`traversal`]: which entries of a walk are candidates;
//! - [`invoker`] and [`conversion`]: what an engine is called with, and what
//!   its answer means for the file and for the metadata;
//! - [`dispatch`]: which work unit starts next, and that none starts after
//!   an interrupt while those under way are still taken back;
//! - [`controller`]: which session a start leads to, and what each request
//!   asks of the store;
//! - [`profile`] and [`metadata`]: profiles, their rows in the store, and
//!   the record of conversions;
//! - [`path`] and [`text`]: paths and lists of lines as texts;
//! - [`config`], [`fault`] and [`interface`]: the configuration of a start,
//!   the kinds of fault, and the boundary to the front end.
//!
//! Reading directories and files, running engines, talking to the store and
//! waiting for signals are left to the program around the library.

pub mod config;
pub mod controller;
pub mod conversion;
pub mod dispatch;
pub mod fault;
pub mod interface;
pub mod invoker;
pub mod metadata;
pub mod path;
pub mod profile;
pub mod staleness;
pub mod text;
pub mod traversal;

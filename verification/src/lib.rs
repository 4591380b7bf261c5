//! A configuration-driven file-copy library.
//!
//! A configuration binds names to locations (base paths), file entries
//! (relative paths) and tags (groups of file-entry names). A selection of
//! tags and explicit file names is resolved into a deduplicated set of
//! relative paths, which is then turned into a plan of concrete copy
//! operations from one named location to another. Executing the plan
//! (the actual filesystem traffic) is left to the caller; the library
//! decides what is copied, what is reported, and how a per-file failure
//! affects the rest of the run.

pub mod config;
pub mod cpx;
pub mod errors;
pub mod plan;
pub mod request;

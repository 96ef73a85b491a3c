//! Discovery and replication of nested subvolume hierarchies.
//!
//! The volume-management tool is driven from outside the library: the
//! library parses what the tool prints, decides what to ask it next, and
//! keeps the discovered hierarchy with its ordering guarantees.

pub mod paths;
pub mod tool;
pub mod subvolume;
pub mod discovery;
pub mod replication;

pub use subvolume::{FileType, Subvolume};

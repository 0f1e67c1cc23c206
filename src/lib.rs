//! Incrementing and decrementing integer literals in text, keeping their base,
//! prefix, digit case, width and digit grouping; and reporting the changed
//! files of a working copy to a callback.

pub mod changes;
pub mod digits;
pub mod head;
pub mod integer;
pub mod pattern;
pub mod separators;
pub mod text;

pub use changes::{for_each_changed_file, FileChange, RepoStatus, StatusPath};
pub use head::head_name;
pub use integer::increment;

//! A singly-linked list with single ownership of every node and iterative
//! teardown, together with the pure parts of a small runtime benchmark that
//! builds and walks it: reading the input numbers, filling arrays, and
//! formatting result lines.

pub mod bench;
pub mod laws;
pub mod list;
pub mod parse;
pub mod render;

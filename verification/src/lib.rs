//! Core of a readline-style input line: a text/cursor document model with
//! word- and line-boundary queries, and a completion engine that formats
//! suggestion columns and tracks a scrolling selection.

pub mod bisect;
pub mod completion;
pub mod document;
pub mod format;
pub mod lines;
pub mod text;
pub mod width;

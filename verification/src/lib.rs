//! Verified core of a cross-platform file manager and previewer.
pub mod cache;
pub mod convert;
pub mod encoding;
pub mod fs_tree;
pub mod error;
pub mod numfmt;
pub mod ops;
pub mod paths;
pub mod platform;
pub mod preview;
pub mod task;
pub mod text;
pub mod xml;
pub mod epub;

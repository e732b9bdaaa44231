//! Typed views over the lossless tree.  A view owns nothing but a reference
//! to its node; every accessor walks the tree on demand, so the tree is the
//! single source of truth for syntax structure.
pub mod support;
pub mod nodes;
pub mod reading;
pub mod binding;
pub mod typed;

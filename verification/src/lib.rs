//! Treats a single source file as a buildable project: a shadow project
//! directory is materialized next to the source file, dependency
//! declarations embedded in the file's leading comment lines are
//! extracted, and the shadow project's manifest is rewritten to carry
//! them.
//!
//! This crate holds the verified core: the metadata extractor, the
//! manifest rewriter, and the decisions the materializer and the command
//! line take. All functions work on plain byte lines; the surrounding
//! binary does the file, link and subprocess work and hands lines in and
//! out.

pub mod bytes;
pub mod manifest;
pub mod metadata;
pub mod plan;

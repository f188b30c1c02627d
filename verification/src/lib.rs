//! Papyrus turns a directory of Markdown chapters and a project
//! configuration into a themed HTML bundle, an EPUB package or the print
//! document and backend plan of a PDF.
//!
//! The library works on plain values: the caller reads files and runs
//! programs, the library decides what the artifacts contain.

pub mod archive;
pub mod backend;
pub mod cli;
pub mod config;
pub mod cover;
pub mod epub;
pub mod error;
pub mod formats;
pub mod highlight;
pub mod html;
pub mod idempotence;
pub mod markdown;
pub mod matter;
pub mod number;
pub mod order;
pub mod path;
pub mod pdf;
pub mod source;
pub mod template;
pub mod text;

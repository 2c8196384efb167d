//! Lint-on-edit core of a SystemVerilog language server.
//!
//! The crate turns the text of one open buffer into positioned diagnostics:
//! it resolves the project settings, prepares the preprocessor context,
//! runs the parser and the linter, and maps what they report onto
//! line and column ranges.

pub mod analysis;
pub mod backend;
pub mod config;
pub mod define;
pub mod diagnostic;
pub mod document;
pub mod opt;
pub mod paths;
pub mod position;
pub mod rules;
pub mod text;

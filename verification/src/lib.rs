//! Verified core of the newt notebook terminal: notebook cells and their
//! markdown form, the per-language source assembly of the compiled kernels,
//! terminal-session conversion, search, and the decisions of the editor.

pub mod api;
pub mod colors;
pub mod cursor;
pub mod files;
pub mod go_kernel;
pub mod ids;
pub mod kernel;
pub mod keys;
pub mod laws;
pub mod lite;
pub mod markdown;
pub mod markdown_laws;
pub mod notebook;
pub mod numparse;
pub mod paths;
pub mod pattern;
pub mod scripts;
pub mod runner;
pub mod search;
pub mod state;
pub mod terminal;
pub mod text;
pub mod view;

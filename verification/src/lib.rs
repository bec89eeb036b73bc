use vstd::prelude::*;

pub mod text;
pub mod path;
pub mod error;
pub mod content_type;
pub mod encoding;
pub mod config;
pub mod conflict;
pub mod file_ops;
pub mod ui;
pub mod clipboard;
pub mod cli;
pub mod laws;

verus! {
} // verus!

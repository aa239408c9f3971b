//! Bounded expansion of source paths into regular files, and synthesis of
//! Ninja-style build lines from the files found.
pub mod expand;
pub mod output;
pub mod synth;

pub use expand::{expand_paths, PathExpander};

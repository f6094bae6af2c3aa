//! Building blocks for running shell-like command lines: a quote-aware
//! tokenizer, a pipeline splitter, the decisions that drive a chain of
//! processes, output decoding, percentage renderers, and the small
//! decisions of the desktop controls built on them.
use vstd::prelude::*;

pub mod chain;
pub mod controls;
pub mod output;
pub mod pipeline;
pub mod progress;
pub mod tokenize;

pub use pipeline::parse_pipeline;
pub use progress::{get_progress_bar, pad_progress};
pub use tokenize::parse_command;

verus! {

/// The character sequences that a vector of strings holds.
pub open spec fn views(v: Seq<String>) -> Seq<Seq<char>> {
    v.map_values(|w: String| w@)
}

} // verus!

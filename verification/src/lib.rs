//! Per-token font assignment for code editors: scope matching, font rules,
//! configuration, and the helpers around them.
use vstd::prelude::*;

pub mod cli;
pub mod config;
pub mod download;
pub mod engine;
pub mod error;
pub mod font;
pub mod fonts;
pub mod lsp;
pub mod name_map;
pub mod names;
pub mod parse;
pub mod render;
pub mod scope;
pub mod scope_tree;
pub mod text;
pub mod themes;
pub mod token;

verus! {

/// The deep view of a vector of characters is its view.
pub broadcast proof fn lemma_chars_deep_view(v: Vec<char>)
    ensures
        #[trigger] v.deep_view() == v@,
{
    assert(v.deep_view() =~= v@);
}

} // verus!

//! The comments of Rust.

use vstd::prelude::*;
use vstd::string::*;
use crate::engine::extract;
use crate::error::SourcelinkError;
use crate::parser::{Comment, Parser};
use crate::profile::{GrammarProfile, ProfileView, lemma_ascii_text_ok};

verus! {

/// The delimiters of Rust.
pub open spec fn rust_profile_spec() -> ProfileView {
    ProfileView {
        string_delimiters: seq!["\"".spec_bytes()],
        line_comment_marker: Some("//".spec_bytes()),
        block_comment_open: Some("/*".spec_bytes()),
        block_comment_close: Some("*/".spec_bytes()),
        nested_blocks_allowed: true,
    }
}

/// Every delimiter of the profile is a non-empty run of ASCII bytes, and
/// no two of them are the same.
pub proof fn lemma_rust_profile_valid()
    ensures
        rust_profile_spec().valid(),
{
    reveal_strlit("\"");
    lemma_ascii_text_ok("\"");
    reveal_strlit("//");
    lemma_ascii_text_ok("//");
    reveal_strlit("/*");
    lemma_ascii_text_ok("/*");
    reveal_strlit("*/");
    lemma_ascii_text_ok("*/");
    let pats = rust_profile_spec().patterns();
    assert(pats.len() == 5);
    assert(pats[0].text[0] != pats[4].text[0]);
    assert(pats[1].text[1] != pats[2].text[1]);
    assert(pats[1].text[0] != pats[3].text[0]);
    assert(pats[2].text[0] != pats[3].text[0]);
}

/// The grammar profile of Rust.
pub fn rust_profile() -> (r: GrammarProfile)
    ensures
        r@ == rust_profile_spec(),
        r@.valid(),
{
    let r = GrammarProfile {
        string_delimiters: vec!["\""],
        line_comment_marker: Some("//"),
        block_comment_open: Some("/*"),
        block_comment_close: Some("*/"),
        nested_blocks_allowed: true,
    };
    proof {
        lemma_rust_profile_valid();
        assert(r@.string_delimiters =~= rust_profile_spec().string_delimiters);
    }
    r
}

/// The parser of Rust.
#[derive(Clone, Debug)]
pub struct RustParser;

impl<'source> Parser<'source> for RustParser {
    open spec fn profile(&self) -> ProfileView {
        rust_profile_spec()
    }

    fn parse(&self, content: &'source str) -> (r: Result<Vec<Comment<'source>>, SourcelinkError>) {
        let profile = rust_profile();
        extract(content, &profile)
    }
}

} // verus!

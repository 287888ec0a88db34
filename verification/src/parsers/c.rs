//! The comments of C and C++.

use vstd::prelude::*;
use vstd::string::*;
use crate::engine::extract;
use crate::error::SourcelinkError;
use crate::parser::{Comment, Parser};
use crate::profile::{GrammarProfile, ProfileView, lemma_ascii_text_ok};

verus! {

/// The delimiters of C and C++.
pub open spec fn c_profile_spec() -> ProfileView {
    ProfileView {
        string_delimiters: seq!["\"".spec_bytes(), "'".spec_bytes()],
        line_comment_marker: Some("//".spec_bytes()),
        block_comment_open: Some("/*".spec_bytes()),
        block_comment_close: Some("*/".spec_bytes()),
        nested_blocks_allowed: false,
    }
}

/// Every delimiter of the profile is a non-empty run of ASCII bytes, and
/// no two of them are the same.
pub proof fn lemma_c_profile_valid()
    ensures
        c_profile_spec().valid(),
{
    reveal_strlit("\"");
    lemma_ascii_text_ok("\"");
    reveal_strlit("'");
    lemma_ascii_text_ok("'");
    reveal_strlit("//");
    lemma_ascii_text_ok("//");
    reveal_strlit("/*");
    lemma_ascii_text_ok("/*");
    reveal_strlit("*/");
    lemma_ascii_text_ok("*/");
    let pats = c_profile_spec().patterns();
    assert(pats.len() == 6);
    assert(pats[0].text[0] != pats[1].text[0]);
    assert(pats[0].text[0] != pats[5].text[0]);
    assert(pats[1].text[0] != pats[5].text[0]);
    assert(pats[2].text[1] != pats[3].text[1]);
    assert(pats[2].text[0] != pats[4].text[0]);
    assert(pats[3].text[0] != pats[4].text[0]);
}

/// The grammar profile of C and C++.
pub fn c_profile() -> (r: GrammarProfile)
    ensures
        r@ == c_profile_spec(),
        r@.valid(),
{
    let r = GrammarProfile {
        string_delimiters: vec!["\"", "'"],
        line_comment_marker: Some("//"),
        block_comment_open: Some("/*"),
        block_comment_close: Some("*/"),
        nested_blocks_allowed: false,
    };
    proof {
        lemma_c_profile_valid();
        assert(r@.string_delimiters =~= c_profile_spec().string_delimiters);
    }
    r
}

/// The parser of C and C++.
#[derive(Clone, Debug)]
pub struct CParser;

impl<'source> Parser<'source> for CParser {
    open spec fn profile(&self) -> ProfileView {
        c_profile_spec()
    }

    fn parse(&self, content: &'source str) -> (r: Result<Vec<Comment<'source>>, SourcelinkError>) {
        let profile = c_profile();
        extract(content, &profile)
    }
}

} // verus!

//! The comments of Go and the languages that share its comments.

use vstd::prelude::*;
use vstd::string::*;
use crate::engine::extract;
use crate::error::SourcelinkError;
use crate::parser::{Comment, Parser};
use crate::profile::{GrammarProfile, ProfileView, lemma_ascii_text_ok};

verus! {

/// The delimiters of Go and the languages that share its comments.
pub open spec fn go_profile_spec() -> ProfileView {
    ProfileView {
        string_delimiters: seq!["\"".spec_bytes(), "'".spec_bytes(), "`".spec_bytes()],
        line_comment_marker: Some("//".spec_bytes()),
        block_comment_open: Some("/*".spec_bytes()),
        block_comment_close: Some("*/".spec_bytes()),
        nested_blocks_allowed: false,
    }
}

/// Every delimiter of the profile is a non-empty run of ASCII bytes, and
/// no two of them are the same.
pub proof fn lemma_go_profile_valid()
    ensures
        go_profile_spec().valid(),
{
    reveal_strlit("\"");
    lemma_ascii_text_ok("\"");
    reveal_strlit("'");
    lemma_ascii_text_ok("'");
    reveal_strlit("`");
    lemma_ascii_text_ok("`");
    reveal_strlit("//");
    lemma_ascii_text_ok("//");
    reveal_strlit("/*");
    lemma_ascii_text_ok("/*");
    reveal_strlit("*/");
    lemma_ascii_text_ok("*/");
    let pats = go_profile_spec().patterns();
    assert(pats.len() == 7);
    assert(pats[0].text[0] != pats[1].text[0]);
    assert(pats[0].text[0] != pats[2].text[0]);
    assert(pats[0].text[0] != pats[6].text[0]);
    assert(pats[1].text[0] != pats[2].text[0]);
    assert(pats[1].text[0] != pats[6].text[0]);
    assert(pats[2].text[0] != pats[6].text[0]);
    assert(pats[3].text[1] != pats[4].text[1]);
    assert(pats[3].text[0] != pats[5].text[0]);
    assert(pats[4].text[0] != pats[5].text[0]);
}

/// The grammar profile of Go and the languages that share its comments.
pub fn go_profile() -> (r: GrammarProfile)
    ensures
        r@ == go_profile_spec(),
        r@.valid(),
{
    let r = GrammarProfile {
        string_delimiters: vec!["\"", "'", "`"],
        line_comment_marker: Some("//"),
        block_comment_open: Some("/*"),
        block_comment_close: Some("*/"),
        nested_blocks_allowed: false,
    };
    proof {
        lemma_go_profile_valid();
        assert(r@.string_delimiters =~= go_profile_spec().string_delimiters);
    }
    r
}

/// The parser of Go and the languages that share its comments.
#[derive(Clone, Debug)]
pub struct GoParser;

impl<'source> Parser<'source> for GoParser {
    open spec fn profile(&self) -> ProfileView {
        go_profile_spec()
    }

    fn parse(&self, content: &'source str) -> (r: Result<Vec<Comment<'source>>, SourcelinkError>) {
        let profile = go_profile();
        extract(content, &profile)
    }
}

} // verus!

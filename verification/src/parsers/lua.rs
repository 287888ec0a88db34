//! The comments of Lua.

use vstd::prelude::*;
use vstd::string::*;
use crate::engine::extract;
use crate::error::SourcelinkError;
use crate::parser::{Comment, Parser};
use crate::profile::{GrammarProfile, ProfileView, lemma_ascii_text_ok};

verus! {

/// The delimiters of Lua.
pub open spec fn lua_profile_spec() -> ProfileView {
    ProfileView {
        string_delimiters: seq!["\"".spec_bytes(), "'".spec_bytes()],
        line_comment_marker: Some("--".spec_bytes()),
        block_comment_open: None,
        block_comment_close: None,
        nested_blocks_allowed: false,
    }
}

/// Every delimiter of the profile is a non-empty run of ASCII bytes, and
/// no two of them are the same.
pub proof fn lemma_lua_profile_valid()
    ensures
        lua_profile_spec().valid(),
{
    reveal_strlit("\"");
    lemma_ascii_text_ok("\"");
    reveal_strlit("'");
    lemma_ascii_text_ok("'");
    reveal_strlit("--");
    lemma_ascii_text_ok("--");
    let pats = lua_profile_spec().patterns();
    assert(pats.len() == 4);
    assert(pats[0].text[0] != pats[1].text[0]);
    assert(pats[0].text[0] != pats[3].text[0]);
    assert(pats[1].text[0] != pats[3].text[0]);
}

/// The grammar profile of Lua.
pub fn lua_profile() -> (r: GrammarProfile)
    ensures
        r@ == lua_profile_spec(),
        r@.valid(),
{
    let r = GrammarProfile {
        string_delimiters: vec!["\"", "'"],
        line_comment_marker: Some("--"),
        block_comment_open: None,
        block_comment_close: None,
        nested_blocks_allowed: false,
    };
    proof {
        lemma_lua_profile_valid();
        assert(r@.string_delimiters =~= lua_profile_spec().string_delimiters);
    }
    r
}

/// The parser of Lua.
#[derive(Clone, Debug)]
pub struct LuaParser;

impl<'source> Parser<'source> for LuaParser {
    open spec fn profile(&self) -> ProfileView {
        lua_profile_spec()
    }

    fn parse(&self, content: &'source str) -> (r: Result<Vec<Comment<'source>>, SourcelinkError>) {
        let profile = lua_profile();
        extract(content, &profile)
    }
}

} // verus!

//! Grammar profiles: the delimiters that make up one language's comments
//! and string literals.

use vstd::prelude::*;
use vstd::string::*;

verus! {

/// The lexical rules of one language, as far as comments are concerned.
pub struct GrammarProfile {
    /// The tokens that open a string or character literal; a literal is
    /// closed by the token that opened it.
    pub string_delimiters: Vec<&'static str>,
    /// The token after which the rest of the line is a comment.
    pub line_comment_marker: Option<&'static str>,
    /// The token that opens a block comment.
    pub block_comment_open: Option<&'static str>,
    /// The token that closes a block comment; it may be the opening token.
    pub block_comment_close: Option<&'static str>,
    /// Whether a block comment may hold further block comments.
    pub nested_blocks_allowed: bool,
}

/// The mathematical value of a [`GrammarProfile`]: its delimiters as bytes.
pub struct ProfileView {
    pub string_delimiters: Seq<Seq<u8>>,
    pub line_comment_marker: Option<Seq<u8>>,
    pub block_comment_open: Option<Seq<u8>>,
    pub block_comment_close: Option<Seq<u8>>,
    pub nested_blocks_allowed: bool,
}

/// The bytes of an optional delimiter.
pub open spec fn optional_bytes(text: Option<&'static str>) -> Option<Seq<u8>> {
    match text {
        Some(s) => Some(s.spec_bytes()),
        None => None,
    }
}

impl View for GrammarProfile {
    type V = ProfileView;

    open spec fn view(&self) -> ProfileView {
        ProfileView {
            string_delimiters: Seq::new(
                self.string_delimiters@.len(),
                |i: int| self.string_delimiters@[i].spec_bytes(),
            ),
            line_comment_marker: optional_bytes(self.line_comment_marker),
            block_comment_open: optional_bytes(self.block_comment_open),
            block_comment_close: optional_bytes(self.block_comment_close),
            nested_blocks_allowed: self.nested_blocks_allowed,
        }
    }
}

/// A delimiter is a non-empty run of ASCII bytes.
pub open spec fn delimiter_ok(text: Seq<u8>) -> bool {
    text.len() > 0 && forall|i: int| 0 <= i < text.len() ==> #[trigger] text[i] <= 0x7f
}

/// An optional delimiter is absent or well formed.
pub open spec fn optional_ok(text: Option<Seq<u8>>) -> bool {
    text is Some ==> delimiter_ok(text->Some_0)
}

impl ProfileView {
    /// Every delimiter of the profile is a non-empty run of ASCII bytes.
    pub open spec fn wf(self) -> bool {
        &&& forall|i: int|
            0 <= i < self.string_delimiters.len() ==> delimiter_ok(
                #[trigger] self.string_delimiters[i],
            )
        &&& optional_ok(self.line_comment_marker)
        &&& optional_ok(self.block_comment_open)
        &&& optional_ok(self.block_comment_close)
    }

    /// One token both opens and closes a block comment.
    pub open spec fn is_toggle(self) -> bool {
        self.block_comment_open is Some && self.block_comment_open == self.block_comment_close
    }
}

/// A non-empty ASCII text is a well-formed delimiter.
pub proof fn lemma_ascii_text_ok(s: &str)
    requires
        is_ascii(s),
        s@.len() > 0,
    ensures
        delimiter_ok(s.spec_bytes()),
        s.spec_bytes().len() == s@.len(),
        forall|i: int| 0 <= i < s@.len() ==> #[trigger] s.spec_bytes()[i] == s@[i] as u8,
{
    is_ascii_spec_bytes(s);
    let b = s.spec_bytes();
    assert forall|i: int| 0 <= i < b.len() implies #[trigger] b[i] <= 0x7f by {
        assert('\0' <= s@[i] <= '\u{7f}');
    }
}

} // verus!

//! The tokenizer: finds the delimiters of a grammar profile in a source
//! text and skips everything else.

use vstd::prelude::*;
use vstd::string::*;
use vstd::utf8::*;
use crate::bytes::{bytes_eq, lemma_boundary_after_ascii, lemma_boundary_before_ascii};
use crate::profile::{GrammarProfile, ProfileView, delimiter_ok, optional_bytes, optional_ok};

verus! {

/// What a token is: which delimiter of the profile was recognised.
#[derive(Clone, Copy, Debug, PartialEq, Eq, Structural)]
pub enum TokenKind {
    /// The string delimiter at this index of the profile.
    StringDelimiter(usize),
    /// The line-comment marker.
    LineComment,
    /// The token that opens a block comment.
    BlockOpen,
    /// The token that closes a block comment.
    BlockClose,
    /// The end of a line.
    NewLine,
}

/// A recognised delimiter and its byte span `[start, end)` in the source.
#[derive(Clone, Copy, Debug, PartialEq, Eq)]
pub struct Token {
    pub kind: TokenKind,
    pub start: usize,
    pub end: usize,
}

/// The mathematical value of a [`Token`].
pub struct TokenView {
    pub kind: TokenKind,
    pub start: int,
    pub end: int,
}

impl View for Token {
    type V = TokenView;

    open spec fn view(&self) -> TokenView {
        TokenView { kind: self.kind, start: self.start as int, end: self.end as int }
    }
}

/// A delimiter together with the kind of token it yields.
#[derive(Clone, Copy, Debug)]
pub struct Pattern {
    pub kind: TokenKind,
    pub text: &'static str,
}

/// The mathematical value of a [`Pattern`].
pub struct PatternView {
    pub kind: TokenKind,
    pub text: Seq<u8>,
}

impl View for Pattern {
    type V = PatternView;

    open spec fn view(&self) -> PatternView {
        PatternView { kind: self.kind, text: self.text.spec_bytes() }
    }
}

/// The views of a list of patterns.
pub open spec fn pattern_views(pats: Seq<Pattern>) -> Seq<PatternView> {
    Seq::new(pats.len(), |i: int| pats[i]@)
}

/// The views of a list of tokens.
pub open spec fn token_views(tokens: Seq<Token>) -> Seq<TokenView> {
    Seq::new(tokens.len(), |i: int| tokens[i]@)
}

/// The byte that ends a line.
pub open spec fn newline_bytes() -> Seq<u8> {
    seq![0x0au8]
}

/// The pattern of an optional delimiter, if it is there.
pub open spec fn optional_pattern(kind: TokenKind, text: Option<Seq<u8>>) -> Seq<PatternView> {
    match text {
        Some(t) => seq![PatternView { kind, text: t }],
        None => Seq::empty(),
    }
}

impl ProfileView {
    /// The patterns that the tokenizer looks for, in the order in which they
    /// are declared: the string delimiters, the line-comment marker, the
    /// opening and the closing token of block comments and, where the profile
    /// has a line-comment marker, the end of a line.
    pub open spec fn patterns(self) -> Seq<PatternView> {
        Seq::new(
            self.string_delimiters.len(),
            |i: int|
                PatternView {
                    kind: TokenKind::StringDelimiter(i as usize),
                    text: self.string_delimiters[i],
                },
        ) + optional_pattern(TokenKind::LineComment, self.line_comment_marker) + optional_pattern(
            TokenKind::BlockOpen,
            self.block_comment_open,
        ) + optional_pattern(TokenKind::BlockClose, self.block_comment_close) + (
        if self.line_comment_marker is Some {
            seq![PatternView { kind: TokenKind::NewLine, text: newline_bytes() }]
        } else {
            Seq::empty()
        })
    }
}

impl ProfileView {
    /// No two patterns of the profile have the same text, but for a token
    /// that both opens and closes a block comment.
    pub open spec fn distinct(self) -> bool {
        patterns_distinct(self.patterns())
    }

    /// The profile is well formed and its delimiters are distinct.
    pub open spec fn valid(self) -> bool {
        self.wf() && self.distinct()
    }
}

/// No two patterns have the same text, but for a token that both opens and
/// closes a block comment.
pub open spec fn patterns_distinct(pats: Seq<PatternView>) -> bool {
    forall|i: int, j: int|
        0 <= i < j < pats.len() && (#[trigger] pats[i]).text == (#[trigger] pats[j]).text ==> pats[i].kind
            == TokenKind::BlockOpen && pats[j].kind == TokenKind::BlockClose
}

/// Every pattern's text is a non-empty run of ASCII bytes.
pub open spec fn patterns_ok(pats: Seq<PatternView>) -> bool {
    forall|i: int| 0 <= i < pats.len() ==> delimiter_ok((#[trigger] pats[i]).text)
}

/// The non-empty `text` stands in `src` at byte offset `pos`.
pub open spec fn matches_at(src: Seq<u8>, pos: int, text: Seq<u8>) -> bool {
    &&& 0 <= pos
    &&& text.len() > 0
    &&& pos + text.len() <= src.len()
    &&& src.subrange(pos, pos + text.len()) == text
}

/// Among the first `n` patterns, the index of the longest one that stands at
/// `pos`; of several longest ones, the one declared first.
pub open spec fn best_match(src: Seq<u8>, pos: int, pats: Seq<PatternView>, n: int) -> Option<int>
    decreases n,
{
    if n <= 0 {
        None
    } else {
        let earlier = best_match(src, pos, pats, n - 1);
        if matches_at(src, pos, pats[n - 1].text) && (earlier is None
            || pats[earlier->Some_0].text.len() < pats[n - 1].text.len()) {
            Some(n - 1)
        } else {
            earlier
        }
    }
}

/// The tokens of `src` from byte offset `pos` on: at each offset the best
/// match is taken and skipped; where nothing matches, one byte is skipped.
pub open spec fn tokens_from(src: Seq<u8>, pos: int, pats: Seq<PatternView>) -> Seq<TokenView>
    decreases src.len() - pos,
{
    if pos < 0 || pos >= src.len() {
        Seq::empty()
    } else {
        proof {
            lemma_best_match(src, pos, pats, pats.len() as int);
        }
        match best_match(src, pos, pats, pats.len() as int) {
            Some(k) => seq![
                TokenView { kind: pats[k].kind, start: pos, end: pos + pats[k].text.len() },
            ] + tokens_from(src, pos + pats[k].text.len(), pats),
            None => tokens_from(src, pos + 1, pats),
        }
    }
}

/// The tokens of the source text `src` under `profile`.
pub open spec fn tokenize_spec(src: Seq<u8>, profile: ProfileView) -> Seq<TokenView> {
    tokens_from(src, 0, profile.patterns())
}

/// The best match is a match; it is the longest, and the first of the longest.
pub proof fn lemma_best_match(src: Seq<u8>, pos: int, pats: Seq<PatternView>, n: int)
    requires
        0 <= n <= pats.len(),
    ensures
        match best_match(src, pos, pats, n) {
            Some(k) => {
                &&& 0 <= k < n
                &&& matches_at(src, pos, pats[k].text)
                &&& forall|j: int|
                    0 <= j < n && matches_at(src, pos, #[trigger] pats[j].text) ==> {
                        ||| pats[j].text.len() < pats[k].text.len()
                        ||| (pats[j].text.len() == pats[k].text.len() && k <= j)
                    }
            },
            None => forall|j: int| 0 <= j < n ==> !matches_at(src, pos, #[trigger] pats[j].text),
        },
    decreases n,
{
    if n > 0 {
        lemma_best_match(src, pos, pats, n - 1);
    }
}

/// The text of the end-of-line pattern.
pub fn newline_text() -> (r: &'static str)
    ensures
        r.spec_bytes() == newline_bytes(),
{
    let r = "\n";
    proof {
        reveal_strlit("\n");
        assert(is_ascii(r));
        is_ascii_spec_bytes(r);
        assert(r.spec_bytes() =~= newline_bytes());
    }
    r
}

impl GrammarProfile {
    /// The patterns that the tokenizer looks for, in declaration order.
    pub fn patterns(&self) -> (r: Vec<Pattern>)
        ensures
            pattern_views(r@) == self@.patterns(),
    {
        let mut out: Vec<Pattern> = Vec::new();
        let n = self.string_delimiters.len();
        let mut i: usize = 0;
        while i < n
            invariant
                n == self.string_delimiters@.len(),
                i <= n,
                out@.len() == i,
                forall|j: int|
                    0 <= j < i ==> (#[trigger] out@[j])@ == (PatternView {
                        kind: TokenKind::StringDelimiter(j as usize),
                        text: self.string_delimiters@[j].spec_bytes(),
                    }),
            decreases n - i,
        {
            out.push(Pattern { kind: TokenKind::StringDelimiter(i), text: self.string_delimiters[i] });
            i += 1;
        }
        let ghost strings = Seq::new(
            self@.string_delimiters.len(),
            |i: int|
                PatternView {
                    kind: TokenKind::StringDelimiter(i as usize),
                    text: self@.string_delimiters[i],
                },
        );
        assert(pattern_views(out@) =~= strings);
        let ghost line = optional_pattern(TokenKind::LineComment, self@.line_comment_marker);
        if let Some(text) = self.line_comment_marker {
            out.push(Pattern { kind: TokenKind::LineComment, text });
        }
        assert(pattern_views(out@) =~= strings + line);
        let ghost open = optional_pattern(TokenKind::BlockOpen, self@.block_comment_open);
        if let Some(text) = self.block_comment_open {
            out.push(Pattern { kind: TokenKind::BlockOpen, text });
        }
        assert(pattern_views(out@) =~= strings + line + open);
        let ghost close = optional_pattern(TokenKind::BlockClose, self@.block_comment_close);
        if let Some(text) = self.block_comment_close {
            out.push(Pattern { kind: TokenKind::BlockClose, text });
        }
        assert(pattern_views(out@) =~= strings + line + open + close);
        if self.line_comment_marker.is_some() {
            out.push(Pattern { kind: TokenKind::NewLine, text: newline_text() });
        }
        assert(pattern_views(out@) =~= self@.patterns());
        out
    }
}

/// Whether the non-empty `text` stands in `src` at byte offset `pos`.
pub fn match_at(src: &[u8], pos: usize, text: &[u8]) -> (r: bool)
    ensures
        r == matches_at(src@, pos as int, text@),
{
    let n = text.len();
    if n == 0 || pos > src.len() || n > src.len() - pos {
        return false;
    }
    assert(src@.len() == src.len());
    let mut i: usize = 0;
    while i < n
        invariant
            n == text@.len(),
            i <= n,
            pos + n <= src@.len() <= usize::MAX,
            forall|j: int| 0 <= j < i ==> src@[pos + j] == text@[j],
        decreases n - i,
    {
        if src[pos + i] != text[i] {
            assert(src@.subrange(pos as int, pos + n)[i as int] != text@[i as int]);
            return false;
        }
        i += 1;
    }
    assert(src@.subrange(pos as int, pos + n) =~= text@);
    true
}

/// The index of the best match among `pats` at byte offset `pos` of `src`.
pub fn find_best(src: &[u8], pos: usize, pats: &Vec<Pattern>) -> (r: Option<usize>)
    ensures
        match r {
            Some(k) => best_match(src@, pos as int, pattern_views(pats@), pats@.len() as int)
                == Some(k as int),
            None => best_match(src@, pos as int, pattern_views(pats@), pats@.len() as int)
                is None,
        },
{
    let ghost views = pattern_views(pats@);
    let n = pats.len();
    let mut best: Option<usize> = None;
    let mut best_len: usize = 0;
    let mut j: usize = 0;
    while j < n
        invariant
            n == pats@.len(),
            j <= n,
            views == pattern_views(pats@),
            match best {
                Some(k) => best_match(src@, pos as int, views, j as int) == Some(k as int) && k < j
                    && best_len == views[k as int].text.len(),
                None => best_match(src@, pos as int, views, j as int) is None,
            },
        decreases n - j,
    {
        let text = pats[j].text.as_bytes();
        assert(text@ == views[j as int].text);
        if match_at(src, pos, text) && (best.is_none() || best_len < text.len()) {
            best = Some(j);
            best_len = text.len();
        }
        j += 1;
    }
    best
}

/// The delimiters of `profile` that occur in `source`, from left to right,
/// each with its byte span.
pub fn tokenize(source: &str, profile: &GrammarProfile) -> (r: Vec<Token>)
    ensures
        token_views(r@) == tokenize_spec(source.spec_bytes(), profile@),
        profile@.wf() ==> tokens_fit(token_views(r@), source.spec_bytes()),
{
    proof {
        if profile@.wf() {
            encode_utf8_valid_utf8(source@);
            lemma_tokenize_fit(source.spec_bytes(), profile@);
        }
    }
    let src = source.as_bytes();
    let pats = profile.patterns();
    let ghost views = profile@.patterns();
    let len = src.len();
    let mut out: Vec<Token> = Vec::new();
    let mut pos: usize = 0;
    assert(token_views(out@) + tokens_from(src@, 0, views) =~= tokens_from(src@, 0, views));
    while pos < len
        invariant
            len == src@.len(),
            pos <= len,
            views == pattern_views(pats@),
            token_views(out@) + tokens_from(src@, pos as int, views) == tokens_from(src@, 0, views),
        decreases len - pos,
    {
        let ghost before = token_views(out@);
        match find_best(src, pos, &pats) {
            Some(k) => {
                proof {
                    lemma_best_match(src@, pos as int, views, views.len() as int);
                }
                let n = pats[k].text.as_bytes().len();
                let token = Token { kind: pats[k].kind, start: pos, end: pos + n };
                out.push(token);
                assert(token_views(out@) =~= before + seq![token@]);
                assert(tokens_from(src@, pos as int, views) == seq![token@] + tokens_from(
                    src@,
                    pos + n,
                    views,
                ));
                assert(before + (seq![token@] + tokens_from(src@, pos + n, views)) =~= (before
                    + seq![token@]) + tokens_from(src@, pos + n, views));
                pos = pos + n;
            },
            None => {
                pos = pos + 1;
            },
        }
    }
    assert(token_views(out@) =~= token_views(out@) + tokens_from(src@, pos as int, views));
    out
}

/// The tokens lie inside a text of `len` bytes, one after the other.
pub open spec fn tokens_ordered(tokens: Seq<TokenView>, len: int) -> bool {
    &&& forall|i: int|
        0 <= i < tokens.len() ==> 0 <= (#[trigger] tokens[i]).start <= tokens[i].end <= len
    &&& forall|i: int, j: int|
        0 <= i < j < tokens.len() ==> (#[trigger] tokens[i]).end <= (#[trigger] tokens[j]).start
}

/// Every token starts and ends between two characters of the text `bytes`.
pub open spec fn tokens_on_boundaries(tokens: Seq<TokenView>, bytes: Seq<u8>) -> bool {
    forall|i: int|
        0 <= i < tokens.len() ==> is_char_boundary(bytes, (#[trigger] tokens[i]).start)
            && is_char_boundary(bytes, tokens[i].end)
}

/// The tokens are positions of the text `bytes`: in order, inside it and
/// between its characters.
pub open spec fn tokens_fit(tokens: Seq<TokenView>, bytes: Seq<u8>) -> bool {
    tokens_ordered(tokens, bytes.len() as int) && tokens_on_boundaries(tokens, bytes)
}

/// The tokens found in a UTF-8 text are non-empty, lie in order inside the
/// text and start and end between its characters.
pub proof fn lemma_tokens_from_fit(src: Seq<u8>, pos: int, pats: Seq<PatternView>)
    requires
        valid_utf8(src),
        patterns_ok(pats),
        0 <= pos,
    ensures
        tokens_fit(tokens_from(src, pos, pats), src),
        forall|i: int|
            0 <= i < tokens_from(src, pos, pats).len() ==> pos <= (#[trigger] tokens_from(
                src,
                pos,
                pats,
            )[i]).start < tokens_from(src, pos, pats)[i].end,
    decreases src.len() - pos,
{
    if pos < src.len() {
        lemma_best_match(src, pos, pats, pats.len() as int);
        match best_match(src, pos, pats, pats.len() as int) {
            Some(k) => {
                let text = pats[k].text;
                let n = text.len() as int;
                let rest = tokens_from(src, pos + n, pats);
                let all = tokens_from(src, pos, pats);
                lemma_tokens_from_fit(src, pos + n, pats);
                assert(src.subrange(pos, pos + n)[0] == src[pos]);
                assert(src.subrange(pos, pos + n)[n - 1] == src[pos + n - 1]);
                assert(text[0] <= 0x7f && text[n - 1] <= 0x7f);
                lemma_boundary_before_ascii(src, pos);
                lemma_boundary_after_ascii(src, pos + n - 1);
                assert(all[0].start == pos && all[0].end == pos + n);
                assert forall|i: int| 1 <= i < all.len() implies all[i] == rest[i - 1] by {}
            },
            None => {
                lemma_tokens_from_fit(src, pos + 1, pats);
            },
        }
    }
}

/// The patterns of a well-formed profile are non-empty runs of ASCII bytes.
pub proof fn lemma_profile_patterns_ok(profile: ProfileView)
    requires
        profile.wf(),
    ensures
        patterns_ok(profile.patterns()),
{
    let pats = profile.patterns();
    assert forall|i: int| 0 <= i < pats.len() implies delimiter_ok((#[trigger] pats[i]).text) by {
        assert(delimiter_ok(newline_bytes()));
        let k = i - profile.string_delimiters.len();
        if k < 0 {
            assert(pats[i].text == profile.string_delimiters[i]);
        }
    }
}

/// The tokens of a UTF-8 text under a well-formed profile are positions of it.
pub proof fn lemma_tokenize_fit(src: Seq<u8>, profile: ProfileView)
    requires
        valid_utf8(src),
        profile.wf(),
    ensures
        tokens_fit(tokenize_spec(src, profile), src),
{
    lemma_profile_patterns_ok(profile);
    lemma_tokens_from_fit(src, 0, profile.patterns());
}

/// Whether `text` is a non-empty run of ASCII bytes.
pub fn delimiter_is_ok(text: &[u8]) -> (r: bool)
    ensures
        r == delimiter_ok(text@),
{
    let n = text.len();
    if n == 0 {
        return false;
    }
    let mut i: usize = 0;
    while i < n
        invariant
            n == text@.len(),
            i <= n,
            forall|j: int| 0 <= j < i ==> #[trigger] text@[j] <= 0x7f,
        decreases n - i,
    {
        if text[i] > 0x7f {
            return false;
        }
        i += 1;
    }
    true
}

/// Whether an optional delimiter is absent or a non-empty run of ASCII bytes.
pub fn optional_is_ok(text: Option<&'static str>) -> (r: bool)
    ensures
        r == optional_ok(optional_bytes(text)),
{
    match text {
        Some(s) => delimiter_is_ok(s.as_bytes()),
        None => true,
    }
}

/// Whether no two of the patterns have the same text, but for a token that
/// both opens and closes a block comment.
pub fn patterns_are_distinct(pats: &Vec<Pattern>) -> (r: bool)
    ensures
        r == patterns_distinct(pattern_views(pats@)),
{
    let ghost views = pattern_views(pats@);
    let n = pats.len();
    let mut j: usize = 0;
    while j < n
        invariant
            n == pats@.len(),
            j <= n,
            views == pattern_views(pats@),
            forall|a: int, b: int|
                0 <= a < b < j && (#[trigger] views[a]).text == (#[trigger] views[b]).text
                    ==> views[a].kind == TokenKind::BlockOpen && views[b].kind
                    == TokenKind::BlockClose,
        decreases n - j,
    {
        let mut i: usize = 0;
        while i < j
            invariant
                n == pats@.len(),
                i <= j < n,
                views == pattern_views(pats@),
                forall|a: int|
                    0 <= a < i && (#[trigger] views[a]).text == views[j as int].text ==> views[a].kind
                        == TokenKind::BlockOpen && views[j as int].kind == TokenKind::BlockClose,
            decreases j - i,
        {
            let same = bytes_eq(pats[i].text.as_bytes(), pats[j].text.as_bytes());
            let toggle = matches!(pats[i].kind, TokenKind::BlockOpen) && matches!(
                pats[j].kind,
                TokenKind::BlockClose
            );
            if same && !toggle {
                assert(views[i as int].text == views[j as int].text);
                return false;
            }
            i += 1;
        }
        j += 1;
    }
    true
}

impl GrammarProfile {
    /// Whether every delimiter of the profile is a non-empty run of ASCII
    /// bytes.
    pub fn is_well_formed(&self) -> (r: bool)
        ensures
            r == self@.wf(),
    {
        let n = self.string_delimiters.len();
        let mut i: usize = 0;
        while i < n
            invariant
                n == self.string_delimiters@.len(),
                i <= n,
                forall|j: int| 0 <= j < i ==> delimiter_ok(#[trigger] self@.string_delimiters[j]),
            decreases n - i,
        {
            if !delimiter_is_ok(self.string_delimiters[i].as_bytes()) {
                assert(!delimiter_ok(self@.string_delimiters[i as int]));
                return false;
            }
            i += 1;
        }
        optional_is_ok(self.line_comment_marker) && optional_is_ok(self.block_comment_open)
            && optional_is_ok(self.block_comment_close)
    }

    /// Whether the profile is well formed and its delimiters are distinct.
    pub fn is_valid(&self) -> (r: bool)
        ensures
            r == self@.valid(),
    {
        let pats = self.patterns();
        self.is_well_formed() && patterns_are_distinct(&pats)
    }
}

} // verus!

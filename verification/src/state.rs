//! The comment state machine: consumes tokens and yields the spans of the
//! comments that they close.

use vstd::prelude::*;
use vstd::string::*;
use vstd::utf8::*;
use crate::bytes::bytes_eq;
use crate::error::SourcelinkError;
use crate::parser::{Comment, CommentView, substr};
use crate::profile::{GrammarProfile, ProfileView};
use crate::token::{Token, TokenKind, TokenView, token_views, tokens_fit};

verus! {

/// The lexical mode of the scanner at one position of the source.
#[derive(Clone, Copy, Debug, PartialEq, Eq)]
pub enum ParseState {
    /// Outside any string and any comment.
    Default,
    /// Inside a string opened by the string delimiter at this index.
    InString { delimiter: usize },
    /// Inside a line comment whose content starts at `start`.
    InLineComment { start: usize },
    /// Inside a block comment whose content starts at `start`, with `depth`
    /// further block comments open inside it.
    InBlockComment { start: usize, depth: usize },
}

/// The mathematical value of a [`ParseState`].
pub enum StateView {
    Default,
    InString { delimiter: usize },
    InLineComment { start: int },
    InBlockComment { start: int, depth: int },
}

impl View for ParseState {
    type V = StateView;

    open spec fn view(&self) -> StateView {
        match *self {
            ParseState::Default => StateView::Default,
            ParseState::InString { delimiter } => StateView::InString { delimiter },
            ParseState::InLineComment { start } => StateView::InLineComment { start: start as int },
            ParseState::InBlockComment { start, depth } => StateView::InBlockComment {
                start: start as int,
                depth: depth as int,
            },
        }
    }
}

/// The byte span `[start, end)` of a comment's content.
pub struct Span {
    pub start: int,
    pub end: int,
}

/// One transition: the next state and the span of the comment that the
/// token closed, if it closed one.
pub struct Step {
    pub state: StateView,
    pub emitted: Option<Span>,
}

/// The transition from `state` on `token`. `nested` says whether block
/// comments nest, `toggle` whether one token both opens and closes them.
/// A token that means nothing in a state leaves it unchanged.
pub open spec fn step_spec(nested: bool, toggle: bool, state: StateView, token: TokenView) -> Step {
    let stay = Step { state, emitted: None };
    match state {
        StateView::Default => match token.kind {
            TokenKind::StringDelimiter(d) => Step {
                state: StateView::InString { delimiter: d },
                emitted: None,
            },
            TokenKind::LineComment => Step {
                state: StateView::InLineComment { start: token.end },
                emitted: None,
            },
            TokenKind::BlockOpen => Step {
                state: StateView::InBlockComment { start: token.end, depth: 0 },
                emitted: None,
            },
            _ => stay,
        },
        StateView::InString { delimiter } => if token.kind == TokenKind::StringDelimiter(
            delimiter,
        ) {
            Step { state: StateView::Default, emitted: None }
        } else {
            stay
        },
        StateView::InLineComment { start } => if token.kind == TokenKind::NewLine {
            Step { state: StateView::Default, emitted: Some(Span { start, end: token.start }) }
        } else {
            stay
        },
        StateView::InBlockComment { start, depth } => {
            let close = Step {
                state: StateView::Default,
                emitted: Some(Span { start, end: token.start }),
            };
            match token.kind {
                TokenKind::BlockOpen => if toggle {
                    close
                } else if nested {
                    Step {
                        state: StateView::InBlockComment { start, depth: depth + 1 },
                        emitted: None,
                    }
                } else {
                    stay
                },
                TokenKind::BlockClose => if toggle || depth <= 0 {
                    close
                } else {
                    Step {
                        state: StateView::InBlockComment { start, depth: depth - 1 },
                        emitted: None,
                    }
                },
                _ => stay,
            }
        },
    }
}

/// The state of the scanner and the spans emitted so far.
pub struct Run {
    pub state: StateView,
    pub spans: Seq<Span>,
}

/// The run of the machine from `start` over `tokens`, token by token.
pub open spec fn run_spec(nested: bool, toggle: bool, start: StateView, tokens: Seq<TokenView>) -> Run
    decreases tokens.len(),
{
    if tokens.len() == 0 {
        Run { state: start, spans: Seq::empty() }
    } else {
        let before = run_spec(nested, toggle, start, tokens.drop_last());
        let step = step_spec(nested, toggle, before.state, tokens.last());
        Run {
            state: step.state,
            spans: match step.emitted {
                Some(span) => before.spans.push(span),
                None => before.spans,
            },
        }
    }
}

/// The spans of the comments that `tokens` hold under `profile`, or `None`
/// where the tokens end inside a string or a comment.
pub open spec fn scan_spec(profile: ProfileView, tokens: Seq<TokenView>) -> Option<Seq<Span>> {
    let run = run_spec(
        profile.nested_blocks_allowed,
        profile.is_toggle(),
        StateView::Default,
        tokens,
    );
    if run.state is Default {
        Some(run.spans)
    } else {
        None
    }
}

/// The comment whose content is the span `span` of the text `bytes`.
pub open spec fn comment_at(bytes: Seq<u8>, span: Span) -> CommentView {
    CommentView {
        content: decode_utf8(bytes.subrange(span.start, span.end)),
        start: span.start,
        end: span.end,
    }
}

/// The comments of the spans `spans` of the text `bytes`.
pub open spec fn comments_at(bytes: Seq<u8>, spans: Seq<Span>) -> Seq<CommentView> {
    Seq::new(spans.len(), |i: int| comment_at(bytes, spans[i]))
}

/// What a scan of `tokens` over the text `bytes` returns.
pub open spec fn comments_spec(profile: ProfileView, tokens: Seq<TokenView>, bytes: Seq<u8>) -> Result<
    Seq<CommentView>,
    SourcelinkError,
> {
    match scan_spec(profile, tokens) {
        Some(spans) => Ok(comments_at(bytes, spans)),
        None => Err(SourcelinkError::ParseError),
    }
}

/// The views of a list of comments.
pub open spec fn comment_views<'a>(comments: Seq<Comment<'a>>) -> Seq<CommentView> {
    Seq::new(comments.len(), |i: int| comments[i]@)
}

/// The mathematical value of what a scan returns.
pub open spec fn result_view<'a>(r: Result<Vec<Comment<'a>>, SourcelinkError>) -> Result<
    Seq<CommentView>,
    SourcelinkError,
> {
    match r {
        Ok(comments) => Ok(comment_views(comments@)),
        Err(e) => Err(e),
    }
}

impl GrammarProfile {
    /// Whether one token both opens and closes a block comment.
    pub fn is_toggle(&self) -> (r: bool)
        ensures
            r == self@.is_toggle(),
    {
        match (self.block_comment_open, self.block_comment_close) {
            (Some(open), Some(close)) => bytes_eq(open.as_bytes(), close.as_bytes()),
            _ => false,
        }
    }
}

/// One transition of the machine: the next state and, where the token
/// closed a comment, the byte span of its content.
pub fn step(nested: bool, toggle: bool, state: ParseState, token: &Token) -> (r: (
    ParseState,
    Option<(usize, usize)>,
))
    requires
        state matches ParseState::InBlockComment { depth, .. } ==> depth < usize::MAX,
    ensures
        r.0@ == step_spec(nested, toggle, state@, token@).state,
        match r.1 {
            Some((start, end)) => step_spec(nested, toggle, state@, token@).emitted == Some(
                Span { start: start as int, end: end as int },
            ),
            None => step_spec(nested, toggle, state@, token@).emitted is None,
        },
{
    match state {
        ParseState::Default => match token.kind {
            TokenKind::StringDelimiter(d) => (ParseState::InString { delimiter: d }, None),
            TokenKind::LineComment => (ParseState::InLineComment { start: token.end }, None),
            TokenKind::BlockOpen => (
                ParseState::InBlockComment { start: token.end, depth: 0 },
                None,
            ),
            _ => (state, None),
        },
        ParseState::InString { delimiter } => match token.kind {
            TokenKind::StringDelimiter(d) => if d == delimiter {
                (ParseState::Default, None)
            } else {
                (state, None)
            },
            _ => (state, None),
        },
        ParseState::InLineComment { start } => match token.kind {
            TokenKind::NewLine => (ParseState::Default, Some((start, token.start))),
            _ => (state, None),
        },
        ParseState::InBlockComment { start, depth } => match token.kind {
            TokenKind::BlockOpen => if toggle {
                (ParseState::Default, Some((start, token.start)))
            } else if nested {
                (ParseState::InBlockComment { start, depth: depth + 1 }, None)
            } else {
                (state, None)
            },
            TokenKind::BlockClose => if toggle || depth == 0 {
                (ParseState::Default, Some((start, token.start)))
            } else {
                (ParseState::InBlockComment { start, depth: depth - 1 }, None)
            },
            _ => (state, None),
        },
    }
}

/// Where the content of the comment that is open in `state` starts, if one is.
pub open spec fn open_start(state: StateView) -> Option<int> {
    match state {
        StateView::InLineComment { start } => Some(start),
        StateView::InBlockComment { start, .. } => Some(start),
        _ => None,
    }
}

/// How many block comments are open inside the one that is open in `state`.
pub open spec fn open_depth(state: StateView) -> int {
    match state {
        StateView::InBlockComment { depth, .. } => depth,
        _ => 0,
    }
}

/// The comments that `tokens`, the tokens of `source`, hold under `profile`.
///
/// Fails with `ParseError` where the tokens end inside a string, a line
/// comment or a block comment.
pub fn scan<'source>(source: &'source str, tokens: &Vec<Token>, profile: &GrammarProfile) -> (r:
    Result<Vec<Comment<'source>>, SourcelinkError>)
    requires
        tokens_fit(token_views(tokens@), source.spec_bytes()),
    ensures
        result_view(r) == comments_spec(profile@, token_views(tokens@), source.spec_bytes()),
{
    let ghost tv = token_views(tokens@);
    let ghost bytes = source.spec_bytes();
    let nested = profile.nested_blocks_allowed;
    let toggle = profile.is_toggle();
    let n = tokens.len();
    let mut state = ParseState::Default;
    let mut comments: Vec<Comment<'source>> = Vec::new();
    let ghost mut spans: Seq<Span> = Seq::empty();
    let mut i: usize = 0;
    assert(tv.take(0) =~= Seq::empty());
    assert(comment_views(comments@) =~= comments_at(bytes, spans));
    while i < n
        invariant
            n == tokens@.len(),
            i <= n,
            tv == token_views(tokens@),
            bytes == source.spec_bytes(),
            tokens_fit(tv, bytes),
            nested == profile@.nested_blocks_allowed,
            toggle == profile@.is_toggle(),
            run_spec(nested, toggle, StateView::Default, tv.take(i as int)) == (Run {
                state: state@,
                spans,
            }),
            comment_views(comments@) == comments_at(bytes, spans),
            open_depth(state@) <= i,
            open_start(state@) matches Some(start) ==> {
                &&& 0 <= start
                &&& is_char_boundary(bytes, start)
                &&& forall|k: int| i <= k < n ==> start <= (#[trigger] tv[k]).start
            },
        decreases n - i,
    {
        let token = tokens[i];
        assert(tv[i as int] == token@);
        assert(tv.take(i + 1).drop_last() =~= tv.take(i as int));
        assert(tv.take(i + 1).last() == tv[i as int]);
        let (next, emitted) = step(nested, toggle, state, &token);
        assert forall|k: int| i + 1 <= k < n implies token@.end <= (#[trigger] tv[k]).start by {
            assert(tv[i as int].end <= tv[k].start);
        }
        if let Some((start, end)) = emitted {
            // The span lies inside the text, between its characters: the
            // slicer does not fail.
            let sliced = substr(source, start, end);
            assert(sliced is Ok);
            if let Ok(content) = sliced {
                let ghost before = comment_views(comments@);
                comments.push(Comment::new(content, start, end));
                proof {
                    let span = Span { start: start as int, end: end as int };
                    assert(comment_views(comments@) =~= before.push(comment_at(bytes, span)));
                    assert(comments_at(bytes, spans.push(span)) =~= comments_at(bytes, spans).push(
                        comment_at(bytes, span),
                    ));
                    spans = spans.push(span);
                }
            }
        }
        state = next;
        i += 1;
    }
    assert(tv.take(n as int) =~= tv);
    match state {
        ParseState::Default => Ok(comments),
        _ => Err(SourcelinkError::ParseError),
    }
}

/// The end of the last token, or the start of the text where there is none.
pub open spec fn frontier(tokens: Seq<TokenView>) -> int {
    if tokens.len() == 0 {
        0
    } else {
        tokens.last().end
    }
}

/// The spans lie inside the text `bytes`, between its characters, and each
/// ends before the next one starts.
pub open spec fn spans_fit(spans: Seq<Span>, bytes: Seq<u8>) -> bool {
    &&& forall|i: int|
        0 <= i < spans.len() ==> {
            &&& 0 <= (#[trigger] spans[i]).start <= spans[i].end <= bytes.len()
            &&& is_char_boundary(bytes, spans[i].start)
            &&& is_char_boundary(bytes, spans[i].end)
        }
    &&& forall|i: int, j: int|
        0 <= i < j < spans.len() ==> (#[trigger] spans[i]).end <= (#[trigger] spans[j]).start
}

/// A run over tokens of a text emits spans of that text in ascending order,
/// none overlapping another; a comment that is still open starts after all
/// of them, at the end of a token.
pub proof fn lemma_run_spans_fit(
    nested: bool,
    toggle: bool,
    tokens: Seq<TokenView>,
    bytes: Seq<u8>,
)
    requires
        tokens_fit(tokens, bytes),
    ensures
        ({
            let run = run_spec(nested, toggle, StateView::Default, tokens);
            &&& spans_fit(run.spans, bytes)
            &&& forall|i: int|
                0 <= i < run.spans.len() ==> (#[trigger] run.spans[i]).end <= frontier(tokens)
            &&& 0 <= open_depth(run.state) <= tokens.len()
            &&& open_start(run.state) matches Some(start) ==> {
                &&& 0 <= start <= frontier(tokens)
                &&& is_char_boundary(bytes, start)
                &&& forall|i: int|
                    0 <= i < run.spans.len() ==> (#[trigger] run.spans[i]).end <= start
            }
        }),
    decreases tokens.len(),
{
    if tokens.len() > 0 {
        let earlier = tokens.drop_last();
        let last = tokens.last();
        assert(tokens_fit(earlier, bytes)) by {
            assert forall|i: int| 0 <= i < earlier.len() implies earlier[i] == tokens[i] by {}
        }
        lemma_run_spans_fit(nested, toggle, earlier, bytes);
        assert(frontier(earlier) <= last.start) by {
            if earlier.len() > 0 {
                assert(earlier.last() == tokens[tokens.len() - 2]);
                assert(last == tokens[tokens.len() - 1]);
            }
        }
        assert(last == tokens[tokens.len() - 1]);
    }
}

/// Inside a string, no token but the delimiter that opened it changes the
/// state, and none starts or closes a comment; that delimiter then closes
/// the string.
pub proof fn lemma_string_immunity(
    nested: bool,
    toggle: bool,
    delimiter: usize,
    tokens: Seq<TokenView>,
    closing: TokenView,
)
    requires
        forall|i: int|
            0 <= i < tokens.len() ==> (#[trigger] tokens[i]).kind != TokenKind::StringDelimiter(
                delimiter,
            ),
        closing.kind == TokenKind::StringDelimiter(delimiter),
    ensures
        run_spec(nested, toggle, StateView::InString { delimiter }, tokens) == (Run {
            state: StateView::InString { delimiter },
            spans: Seq::empty(),
        }),
        run_spec(nested, toggle, StateView::InString { delimiter }, tokens.push(closing)) == (Run {
            state: StateView::Default,
            spans: Seq::empty(),
        }),
    decreases tokens.len(),
{
    if tokens.len() > 0 {
        let earlier = tokens.drop_last();
        assert forall|i: int| 0 <= i < earlier.len() implies (#[trigger] earlier[i]).kind
            != TokenKind::StringDelimiter(delimiter) by {
            assert(earlier[i] == tokens[i]);
        }
        lemma_string_immunity(nested, toggle, delimiter, earlier, closing);
        assert(tokens.last() == tokens[tokens.len() - 1]);
    }
    assert(tokens.push(closing).drop_last() =~= tokens);
}

/// A run over two lists of tokens, one after the other, is the run over
/// the first followed by the run over the second from where the first ended.
pub proof fn lemma_run_append(
    nested: bool,
    toggle: bool,
    start: StateView,
    first: Seq<TokenView>,
    second: Seq<TokenView>,
)
    ensures
        ({
            let head = run_spec(nested, toggle, start, first);
            let tail = run_spec(nested, toggle, head.state, second);
            run_spec(nested, toggle, start, first + second) == (Run {
                state: tail.state,
                spans: head.spans + tail.spans,
            })
        }),
    decreases second.len(),
{
    let head = run_spec(nested, toggle, start, first);
    if second.len() == 0 {
        assert(first + second =~= first);
        assert(head.spans + Seq::<Span>::empty() =~= head.spans);
    } else {
        let earlier = second.drop_last();
        lemma_run_append(nested, toggle, start, first, earlier);
        assert((first + second).drop_last() =~= first + earlier);
        assert((first + second).last() == second.last());
        let tail = run_spec(nested, toggle, head.state, earlier);
        let step = step_spec(nested, toggle, tail.state, second.last());
        if step.emitted is Some {
            assert((head.spans + tail.spans).push(step.emitted->Some_0) =~= head.spans
                + tail.spans.push(step.emitted->Some_0));
        }
    }
}

/// A string literal that is opened outside any comment and closed by its
/// own delimiter changes nothing: the run goes on as if the literal and all
/// the tokens inside it were not there.
pub proof fn lemma_string_literal_skipped(
    nested: bool,
    toggle: bool,
    before: Seq<TokenView>,
    opening: TokenView,
    inside: Seq<TokenView>,
    closing: TokenView,
    after: Seq<TokenView>,
)
    requires
        run_spec(nested, toggle, StateView::Default, before).state is Default,
        opening.kind is StringDelimiter,
        closing.kind == opening.kind,
        forall|i: int| 0 <= i < inside.len() ==> (#[trigger] inside[i]).kind != opening.kind,
    ensures
        run_spec(
            nested,
            toggle,
            StateView::Default,
            before + seq![opening] + inside.push(closing) + after,
        ) == run_spec(nested, toggle, StateView::Default, before + after),
{
    let delimiter = opening.kind->StringDelimiter_0;
    let head = run_spec(nested, toggle, StateView::Default, before);
    let in_string = StateView::InString { delimiter };
    lemma_string_immunity(nested, toggle, delimiter, inside, closing);
    lemma_run_append(nested, toggle, StateView::Default, before, seq![opening]);
    assert(seq![opening].drop_last() =~= Seq::<TokenView>::empty());
    assert(seq![opening].last() == opening);
    assert(run_spec(nested, toggle, head.state, Seq::<TokenView>::empty()).state == head.state);
    assert(step_spec(nested, toggle, head.state, opening).state == in_string);
    assert(run_spec(nested, toggle, head.state, seq![opening]) == (Run {
        state: in_string,
        spans: Seq::empty(),
    }));
    lemma_run_append(
        nested,
        toggle,
        StateView::Default,
        before + seq![opening],
        inside.push(closing),
    );
    lemma_run_append(
        nested,
        toggle,
        StateView::Default,
        before + seq![opening] + inside.push(closing),
        after,
    );
    lemma_run_append(nested, toggle, StateView::Default, before, after);
    assert(head.spans + Seq::<Span>::empty() =~= head.spans);
}

} // verus!

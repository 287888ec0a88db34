//! The engine: one scan of a source text under a grammar profile.

use vstd::prelude::*;
use vstd::string::*;
use vstd::utf8::*;
use crate::error::SourcelinkError;
use crate::parser::{Comment, CommentView, on_boundaries, substr_spec};
use crate::profile::{GrammarProfile, ProfileView};
use crate::state::{
    comment_views, comments_spec, lemma_run_spans_fit, result_view, run_spec, scan, StateView,
};
use crate::token::{lemma_tokenize_fit, tokenize, tokenize_spec};

verus! {

/// What a parse of the text `bytes` under `profile` returns: the comments
/// that its tokens hold, or `ParseError` where the text ends inside a string
/// or a comment.
pub open spec fn parse_spec(profile: ProfileView, bytes: Seq<u8>) -> Result<
    Seq<CommentView>,
    SourcelinkError,
> {
    comments_spec(profile, tokenize_spec(bytes, profile), bytes)
}

/// The comments lie inside a text of `len` bytes, sorted ascending by their
/// start, and no two of them overlap.
pub open spec fn comments_sorted(comments: Seq<CommentView>, len: int) -> bool {
    &&& forall|i: int|
        0 <= i < comments.len() ==> 0 <= (#[trigger] comments[i]).start <= comments[i].end <= len
    &&& forall|i: int, j: int|
        0 <= i < j < comments.len() ==> (#[trigger] comments[i]).end <= (
        #[trigger] comments[j]).start && comments[i].start <= comments[j].start
}

/// The comments of `source` under `profile`, sorted by where they start.
///
/// Fails with `ParseError` where `source` ends inside a string or a comment.
pub fn extract<'source>(source: &'source str, profile: &GrammarProfile) -> (r: Result<
    Vec<Comment<'source>>,
    SourcelinkError,
>)
    requires
        profile@.wf(),
    ensures
        result_view(r) == parse_spec(profile@, source.spec_bytes()),
        r matches Ok(comments) ==> comments_sorted(
            comment_views(comments@),
            source.spec_bytes().len() as int,
        ),
{
    let tokens = tokenize(source, profile);
    proof {
        encode_utf8_valid_utf8(source@);
        lemma_parse_sorted(profile@, source.spec_bytes());
    }
    scan(source, &tokens, profile)
}

/// The comments of a parse lie inside the text, sorted ascending by their
/// start, and no two of them overlap.
pub proof fn lemma_parse_sorted(profile: ProfileView, bytes: Seq<u8>)
    requires
        profile.wf(),
        valid_utf8(bytes),
    ensures
        parse_spec(profile, bytes) matches Ok(comments) ==> comments_sorted(
            comments,
            bytes.len() as int,
        ),
{
    let tokens = tokenize_spec(bytes, profile);
    lemma_tokenize_fit(bytes, profile);
    lemma_run_spans_fit(profile.nested_blocks_allowed, profile.is_toggle(), tokens, bytes);
}

/// Two parses of one text under one profile return the same.
pub proof fn lemma_parse_deterministic<'a, 'b>(
    profile: ProfileView,
    bytes: Seq<u8>,
    first: Result<Vec<Comment<'a>>, SourcelinkError>,
    second: Result<Vec<Comment<'b>>, SourcelinkError>,
)
    requires
        result_view(first) == parse_spec(profile, bytes),
        result_view(second) == parse_spec(profile, bytes),
    ensures
        result_view(first) == result_view(second),
{
}

/// The content of each comment of a parse is what the slicer returns for
/// the comment's span of the text, and the slicer accepts that span.
pub proof fn lemma_parse_round_trip(profile: ProfileView, source: Seq<char>, i: int)
    requires
        profile.wf(),
        parse_spec(profile, encode_utf8(source)) is Ok,
        0 <= i < parse_spec(profile, encode_utf8(source))->Ok_0.len(),
    ensures
        ({
            let comment = parse_spec(profile, encode_utf8(source))->Ok_0[i];
            &&& on_boundaries(encode_utf8(source), comment.start, comment.end)
            &&& substr_spec(source, comment.start, comment.end) == Ok::<
                Seq<char>,
                SourcelinkError,
            >(comment.content)
        }),
{
    let bytes = encode_utf8(source);
    let tokens = tokenize_spec(bytes, profile);
    encode_utf8_valid_utf8(source);
    lemma_tokenize_fit(bytes, profile);
    lemma_run_spans_fit(profile.nested_blocks_allowed, profile.is_toggle(), tokens, bytes);
    let run = run_spec(
        profile.nested_blocks_allowed,
        profile.is_toggle(),
        StateView::Default,
        tokens,
    );
    assert(run.spans[i].start <= run.spans[i].end);
}

} // verus!

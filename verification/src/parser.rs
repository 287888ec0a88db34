//! Comment records, the bounds-checked slicer and the interface of the
//! per-language parsers.

use vstd::prelude::*;
use vstd::string::*;
use vstd::utf8::*;
use crate::engine::{comments_sorted, parse_spec};
use crate::error::SourcelinkError;
use crate::profile::ProfileView;
use crate::state::{comment_views, result_view};

verus! {

/// A comment found in a source text: its content and the byte span
/// `[start, end)` of that content, delimiters excluded.
#[derive(Clone, Debug)]
pub struct Comment<'source> {
    content: &'source str,
    start: usize,
    end: usize,
}

/// The mathematical value of a [`Comment`].
pub struct CommentView {
    pub content: Seq<char>,
    pub start: int,
    pub end: int,
}

impl<'source> View for Comment<'source> {
    type V = CommentView;

    closed spec fn view(&self) -> CommentView {
        CommentView { content: self.content@, start: self.start as int, end: self.end as int }
    }
}

impl<'source> Comment<'source> {
    pub fn new(content: &'source str, start: usize, end: usize) -> (r: Self)
        ensures
            r@ == (CommentView { content: content@, start: start as int, end: end as int }),
    {
        Self { content, start, end }
    }

    pub fn content(&self) -> (r: &'source str)
        ensures
            r@ == self@.content,
    {
        self.content
    }

    pub fn start(&self) -> (r: usize)
        ensures
            r as int == self@.start,
    {
        self.start
    }

    pub fn end(&self) -> (r: usize)
        ensures
            r as int == self@.end,
    {
        self.end
    }
}

/// A parser of one language: it finds the comments of a source text.
pub trait Parser<'source> {
    /// The grammar profile that this parser scans with.
    spec fn profile(&self) -> ProfileView;

    /// The comments of `content`, sorted by where they start.
    ///
    /// Fails with `ParseError` where `content` ends inside a string or a
    /// comment.
    fn parse(&self, content: &'source str) -> (r: Result<Vec<Comment<'source>>, SourcelinkError>)
        ensures
            result_view(r) == parse_spec(self.profile(), content.spec_bytes()),
            r matches Ok(comments) ==> comments_sorted(
                comment_views(comments@),
                content.spec_bytes().len() as int,
            ),
    ;
}

/// Whether `start` and `end` both fall between two characters of the
/// UTF-8 text `bytes`.
pub open spec fn on_boundaries(bytes: Seq<u8>, start: int, end: int) -> bool {
    is_char_boundary(bytes, start) && is_char_boundary(bytes, end)
}

/// What [`substr`] returns for the text `s` and the byte range
/// `[start, end)`: the text of those bytes, or `OutOfRange` where `end` lies
/// past the end of `s` or `start` lies past `end`.
pub open spec fn substr_spec(s: Seq<char>, start: int, end: int) -> Result<Seq<char>, SourcelinkError> {
    let len = encode_utf8(s).len();
    if end > len {
        Err(SourcelinkError::OutOfRange(end as usize, 0, len as usize))
    } else if start > end {
        Err(SourcelinkError::OutOfRange(start as usize, 0, end as usize))
    } else {
        Ok(decode_utf8(encode_utf8(s).subrange(start, end)))
    }
}

/// The bytes of `s` from `start` up to `end`, as text.
///
/// Fails with `OutOfRange` when `end` lies past the end of `s` or `start`
/// lies past `end`. The two offsets fall between characters.
pub fn substr<'source>(s: &'source str, start: usize, end: usize) -> (r: Result<
    &'source str,
    SourcelinkError,
>)
    requires
        start <= end <= s.spec_bytes().len() ==> on_boundaries(
            s.spec_bytes(),
            start as int,
            end as int,
        ),
    ensures
        match r {
            Ok(text) => {
                &&& substr_spec(s@, start as int, end as int) == Ok::<Seq<char>, SourcelinkError>(
                    text@,
                )
                &&& text.spec_bytes() == s.spec_bytes().subrange(start as int, end as int)
            },
            Err(e) => substr_spec(s@, start as int, end as int) == Err::<
                Seq<char>,
                SourcelinkError,
            >(e),
        },
{
    let len = s.as_bytes().len();
    if end > len {
        Err(SourcelinkError::OutOfRange(end, 0, len))
    } else if start > end {
        Err(SourcelinkError::OutOfRange(start, 0, end))
    } else {
        let (head, _) = s.split_at(end);
        proof {
            broadcast use group_utf8_lib;

            let bytes = s.spec_bytes();
            let hb = head.spec_bytes();
            assert(valid_utf8(bytes));
            assert(valid_utf8(hb));
            if start < end {
                is_char_boundary_iff_not_is_continuation_byte(bytes, start as int);
                assert(hb[start as int] == bytes[start as int]);
                is_char_boundary_iff_not_is_continuation_byte(hb, start as int);
            } else {
                is_char_boundary_start_end_of_seq(hb);
            }
        }
        let (_, tail) = head.split_at(start);
        proof {
            broadcast use group_utf8_lib;

            assert(tail.spec_bytes() =~= s.spec_bytes().subrange(start as int, end as int));
            assert(decode_utf8(encode_utf8(tail@)) == tail@);
        }
        Ok(tail)
    }
}

} // verus!

//! The language dispatcher: from a file name to a language and its parser.

use vstd::prelude::*;
use vstd::slice::*;
use vstd::string::*;
use vstd::utf8::*;
use crate::bytes::bytes_eq;
use crate::engine::{comments_sorted, lemma_parse_sorted, parse_spec};
use crate::error::SourcelinkError;
use crate::parser::{Comment, Parser};
use crate::parsers::c::{CParser, c_profile, c_profile_spec, lemma_c_profile_valid};
use crate::parsers::go::{GoParser, go_profile, go_profile_spec, lemma_go_profile_valid};
use crate::parsers::lua::{LuaParser, lua_profile, lua_profile_spec, lemma_lua_profile_valid};
use crate::parsers::python::{PythonParser, python_profile, python_profile_spec, lemma_python_profile_valid};
use crate::parsers::rust::{RustParser, rust_profile, rust_profile_spec, lemma_rust_profile_valid};
use crate::profile::{GrammarProfile, ProfileView};
use crate::state::{comment_views, result_view};

verus! {

/// The supported languages.
#[derive(Clone, Copy, Debug, PartialEq, Eq, Structural)]
pub enum Lang {
    C,
    Go,
    JavaScript,
    Lua,
    Python,
    Rust,
}

/// The byte `.`, which separates a file name from its extension.
pub const DOT: u8 = 0x2e;

/// Where the extension of the file name `name` starts: just after its last
/// dot. `None` where the name holds no dot.
pub open spec fn extension_start(name: Seq<u8>) -> Option<int>
    decreases name.len(),
{
    if name.len() == 0 {
        None
    } else if name.last() == DOT {
        Some(name.len() as int)
    } else {
        extension_start(name.drop_last())
    }
}

/// The extension of the file name `name`: the text after its last dot.
pub open spec fn extension_of(name: Seq<u8>) -> Option<Seq<u8>> {
    match extension_start(name) {
        Some(k) => Some(name.subrange(k, name.len() as int)),
        None => None,
    }
}

/// The language that the extension `ext` stands for. Extensions are
/// compared byte by byte: upper and lower case differ.
pub open spec fn language_of_extension(ext: Seq<u8>) -> Option<Lang> {
    if ext == "c".spec_bytes() || ext == "cpp".spec_bytes() || ext == "h".spec_bytes() || ext
        == "hpp".spec_bytes() {
        Some(Lang::C)
    } else if ext == "go".spec_bytes() {
        Some(Lang::Go)
    } else if ext == "js".spec_bytes() || ext == "jsx".spec_bytes() || ext == "ts".spec_bytes()
        || ext == "tsx".spec_bytes() {
        Some(Lang::JavaScript)
    } else if ext == "lua".spec_bytes() {
        Some(Lang::Lua)
    } else if ext == "py".spec_bytes() {
        Some(Lang::Python)
    } else if ext == "rs".spec_bytes() {
        Some(Lang::Rust)
    } else {
        None
    }
}

/// The language of the file called `name`, if its extension stands for one.
pub open spec fn language_of(name: Seq<u8>) -> Option<Lang> {
    match extension_of(name) {
        Some(ext) => language_of_extension(ext),
        None => None,
    }
}

/// The extension starts after a dot that no other dot follows; there is
/// none exactly where the name holds no dot.
pub proof fn lemma_extension_start(name: Seq<u8>)
    ensures
        match extension_start(name) {
            Some(k) => {
                &&& 1 <= k <= name.len()
                &&& name[k - 1] == DOT
                &&& forall|j: int| k <= j < name.len() ==> name[j] != DOT
            },
            None => forall|j: int| 0 <= j < name.len() ==> name[j] != DOT,
        },
    decreases name.len(),
{
    if name.len() > 0 && name.last() != DOT {
        let rest = name.drop_last();
        lemma_extension_start(rest);
        assert forall|j: int| 0 <= j < rest.len() implies rest[j] == name[j] by {}
    }
}

/// Where the extension of `name` starts, if it has one.
pub fn find_extension(name: &[u8]) -> (r: Option<usize>)
    ensures
        match r {
            Some(k) => extension_start(name@) == Some(k as int) && k <= name@.len(),
            None => extension_start(name@) is None,
        },
{
    let mut i: usize = name.len();
    assert(name@.take(i as int) =~= name@);
    while i > 0
        invariant
            i <= name@.len(),
            extension_start(name@) == extension_start(name@.take(i as int)),
        decreases i,
    {
        if name[i - 1] == DOT {
            assert(name@.take(i as int).last() == DOT);
            return Some(i);
        }
        assert(name@.take(i as int).drop_last() =~= name@.take(i - 1));
        i -= 1;
    }
    assert(name@.take(0).len() == 0);
    None
}

/// The language that the extension `ext` stands for.
pub fn lookup_extension(ext: &[u8]) -> (r: Option<Lang>)
    ensures
        r == language_of_extension(ext@),
{
    if bytes_eq(ext, "c".as_bytes()) || bytes_eq(ext, "cpp".as_bytes()) || bytes_eq(
        ext,
        "h".as_bytes(),
    ) || bytes_eq(ext, "hpp".as_bytes()) {
        Some(Lang::C)
    } else if bytes_eq(ext, "go".as_bytes()) {
        Some(Lang::Go)
    } else if bytes_eq(ext, "js".as_bytes()) || bytes_eq(ext, "jsx".as_bytes()) || bytes_eq(
        ext,
        "ts".as_bytes(),
    ) || bytes_eq(ext, "tsx".as_bytes()) {
        Some(Lang::JavaScript)
    } else if bytes_eq(ext, "lua".as_bytes()) {
        Some(Lang::Lua)
    } else if bytes_eq(ext, "py".as_bytes()) {
        Some(Lang::Python)
    } else if bytes_eq(ext, "rs".as_bytes()) {
        Some(Lang::Rust)
    } else {
        None
    }
}

/// The profile of every language is well formed, with distinct delimiters.
pub proof fn lemma_lang_profile_valid(lang: Lang)
    ensures
        lang.profile().valid(),
{
    lemma_c_profile_valid();
    lemma_go_profile_valid();
    lemma_lua_profile_valid();
    lemma_python_profile_valid();
    lemma_rust_profile_valid();
}

impl Lang {
    /// The grammar profile that the language is scanned with.
    pub open spec fn profile(self) -> ProfileView {
        match self {
            Lang::C => c_profile_spec(),
            Lang::Go | Lang::JavaScript => go_profile_spec(),
            Lang::Lua => lua_profile_spec(),
            Lang::Python => python_profile_spec(),
            Lang::Rust => rust_profile_spec(),
        }
    }

    /// The grammar profile that the language is scanned with.
    pub fn grammar(&self) -> (r: GrammarProfile)
        ensures
            r@ == self.profile(),
            r@.valid(),
    {
        match self {
            Lang::C => c_profile(),
            Lang::Go | Lang::JavaScript => go_profile(),
            Lang::Lua => lua_profile(),
            Lang::Python => python_profile(),
            Lang::Rust => rust_profile(),
        }
    }

    /// The language of the file called `filename`, by its extension.
    ///
    /// Fails with `UnknownLanguage`, which holds the file name, where the
    /// name has no extension or the extension stands for no language.
    pub fn from_filename(filename: &str) -> (r: Result<Lang, SourcelinkError>)
        ensures
            match r {
                Ok(lang) => language_of(filename.spec_bytes()) == Some(lang),
                Err(e) => {
                    &&& language_of(filename.spec_bytes()) is None
                    &&& e is UnknownLanguage
                    &&& e->UnknownLanguage_0@ == filename@
                },
            },
    {
        let name = filename.as_bytes();
        let found = match find_extension(name) {
            Some(k) => lookup_extension(slice_subrange(name, k, name.len())),
            None => None,
        };
        match found {
            Some(lang) => Ok(lang),
            None => Err(SourcelinkError::UnknownLanguage(filename.to_owned())),
        }
    }

    /// The comments of `content`, read as a text of this language.
    ///
    /// Fails with `ParseError` where `content` ends inside a string or a
    /// comment.
    pub fn parse<'source>(&self, content: &'source str) -> (r: Result<
        Vec<Comment<'source>>,
        SourcelinkError,
    >)
        ensures
            result_view(r) == parse_spec(self.profile(), content.spec_bytes()),
            r matches Ok(comments) ==> comments_sorted(
                comment_views(comments@),
                content.spec_bytes().len() as int,
            ),
    {
        proof {
            lemma_lang_profile_valid(*self);
            encode_utf8_valid_utf8(content@);
            lemma_parse_sorted(self.profile(), content.spec_bytes());
        }
        match self {
            Lang::C => CParser.parse(content),
            Lang::Go | Lang::JavaScript => GoParser.parse(content),
            Lang::Lua => LuaParser.parse(content),
            Lang::Python => PythonParser.parse(content),
            Lang::Rust => RustParser.parse(content),
        }
    }
}

/// The comments of the file called `filename`, whose whole content is
/// `source`, sorted by where they start. The name only selects the
/// language: no file is read.
///
/// Fails with `UnknownLanguage` where the name's extension stands for no
/// language, and with `ParseError` where `source` ends inside a string or a
/// comment.
pub fn parse<'source>(filename: &str, source: &'source str) -> (r: Result<
    Vec<Comment<'source>>,
    SourcelinkError,
>)
    ensures
        match language_of(filename.spec_bytes()) {
            Some(lang) => result_view(r) == parse_spec(lang.profile(), source.spec_bytes()),
            None => {
                &&& r is Err
                &&& r->Err_0 is UnknownLanguage
                &&& r->Err_0->UnknownLanguage_0@ == filename@
            },
        },
        r matches Ok(comments) ==> comments_sorted(
            comment_views(comments@),
            source.spec_bytes().len() as int,
        ),
{
    match Lang::from_filename(filename) {
        Ok(lang) => lang.parse(source),
        Err(e) => Err(e),
    }
}

} // verus!

use sourcelink::error::SourcelinkError;
use sourcelink::lang::{find_extension, lookup_extension, Lang};
use sourcelink::parser::Comment;
use sourcelink::profile::GrammarProfile;
use sourcelink::state::{scan, step, ParseState};
use sourcelink::token::{find_best, match_at, tokenize, Token, TokenKind};

fn lang_of(name: &str) -> Lang {
    Lang::from_filename(name).unwrap()
}

fn unknown(name: &str) -> bool {
    match Lang::from_filename(name) {
        Err(SourcelinkError::UnknownLanguage(held)) => held == name,
        _ => false,
    }
}

#[test]
fn every_extension_has_its_language() {
    for name in ["a.c", "a.cpp", "a.h", "a.hpp"] {
        assert_eq!(lang_of(name), Lang::C);
    }
    assert_eq!(lang_of("main.go"), Lang::Go);
    for name in ["a.js", "a.jsx", "a.ts", "a.tsx"] {
        assert_eq!(lang_of(name), Lang::JavaScript);
    }
    assert_eq!(lang_of("init.lua"), Lang::Lua);
    assert_eq!(lang_of("setup.py"), Lang::Python);
    assert_eq!(lang_of("lib.rs"), Lang::Rust);
}

#[test]
fn the_extension_follows_the_last_dot() {
    assert_eq!(lang_of("archive.tar.go"), Lang::Go);
    assert_eq!(lang_of("src/v1.2/main.py"), Lang::Python);
    assert_eq!(lang_of(".rs"), Lang::Rust);
    assert!(unknown("main.go.bak"));
    assert!(unknown("dir.c/file"));
}

#[test]
fn a_name_without_a_known_extension_is_unknown() {
    assert!(unknown("Makefile"));
    assert!(unknown(""));
    assert!(unknown("trailing."));
    assert!(unknown("notes.txt"));
    assert!(unknown("é.ü"));
}

#[test]
fn extensions_are_case_sensitive() {
    assert!(unknown("main.GO"));
    assert!(unknown("lib.Rs"));
    assert!(unknown("a.C"));
}

#[test]
fn extension_is_found_after_the_last_dot() {
    assert_eq!(find_extension(b"a.b.c"), Some(4));
    assert_eq!(find_extension(b"abc."), Some(4));
    assert_eq!(find_extension(b"abc"), None);
    assert_eq!(find_extension(b""), None);
    assert_eq!(lookup_extension(b"tsx"), Some(Lang::JavaScript));
    assert_eq!(lookup_extension(b""), None);
    assert_eq!(lookup_extension(b"cp"), None);
}

#[test]
fn a_language_parses_with_its_profile() {
    let nested = "/* a /* b */ c */";
    let one = |r: Vec<Comment<'_>>| r[0].content().to_string();
    assert_eq!(one(Lang::Rust.parse(nested).unwrap()), " a /* b */ c ");
    assert_eq!(one(Lang::C.parse(nested).unwrap()), " a /* b ");
    assert_eq!(one(Lang::Go.parse(nested).unwrap()), " a /* b ");
    assert_eq!(one(Lang::JavaScript.parse("let s = `//`; // x\n").unwrap()), " x");
    assert_eq!(one(Lang::Lua.parse("-- x\n").unwrap()), " x");
    assert_eq!(one(Lang::Python.parse("# x\n").unwrap()), " x");
    assert!(Lang::Python.parse("// x\n").unwrap().is_empty());
}

#[test]
fn a_c_character_literal_hides_a_quote() {
    let comments = Lang::C.parse("char q = '\"'; // after\n").unwrap();
    assert_eq!(comments.len(), 1);
    assert_eq!(comments[0].content(), " after");
    assert_eq!((comments[0].start(), comments[0].end()), (16, 22));
}

#[test]
fn comment_holds_what_it_was_made_with() {
    let c = Comment::new("text", 3, 7);
    assert_eq!(c.content(), "text");
    assert_eq!(c.start(), 3);
    assert_eq!(c.end(), 7);
}

fn go() -> GrammarProfile {
    sourcelink::parsers::go::go_profile()
}

fn python() -> GrammarProfile {
    sourcelink::parsers::python::python_profile()
}

fn token(kind: TokenKind, start: usize, end: usize) -> Token {
    Token { kind, start, end }
}

#[test]
fn tokens_are_the_delimiters_in_order() {
    let tokens = tokenize("a \"b\" // c\n/* d */ `'", &go());
    assert_eq!(
        tokens,
        vec![
            token(TokenKind::StringDelimiter(0), 2, 3),
            token(TokenKind::StringDelimiter(0), 4, 5),
            token(TokenKind::LineComment, 6, 8),
            token(TokenKind::NewLine, 10, 11),
            token(TokenKind::BlockOpen, 11, 13),
            token(TokenKind::BlockClose, 16, 18),
            token(TokenKind::StringDelimiter(2), 19, 20),
            token(TokenKind::StringDelimiter(1), 20, 21),
        ]
    );
}

#[test]
fn text_without_delimiters_has_no_tokens() {
    assert!(tokenize("", &go()).is_empty());
    assert!(tokenize("plain / text * here", &go()).is_empty());
}

#[test]
fn the_longest_delimiter_wins() {
    let tokens = tokenize("\"\"\"\"\"", &python());
    assert_eq!(
        tokens,
        vec![
            token(TokenKind::BlockOpen, 0, 3),
            token(TokenKind::StringDelimiter(0), 3, 4),
            token(TokenKind::StringDelimiter(0), 4, 5),
        ]
    );
    let tokens = tokenize("/*/", &go());
    assert_eq!(tokens, vec![token(TokenKind::BlockOpen, 0, 2)]);
    let tokens = tokenize("//*", &go());
    assert_eq!(tokens, vec![token(TokenKind::LineComment, 0, 2)]);
}

#[test]
fn patterns_stand_in_declaration_order() {
    let kinds: Vec<TokenKind> = go().patterns().iter().map(|p| p.kind).collect();
    assert_eq!(
        kinds,
        vec![
            TokenKind::StringDelimiter(0),
            TokenKind::StringDelimiter(1),
            TokenKind::StringDelimiter(2),
            TokenKind::LineComment,
            TokenKind::BlockOpen,
            TokenKind::BlockClose,
            TokenKind::NewLine,
        ]
    );
    let texts: Vec<&str> = sourcelink::parsers::lua::lua_profile()
        .patterns()
        .iter()
        .map(|p| p.text)
        .collect();
    assert_eq!(texts, vec!["\"", "'", "--", "\n"]);
}

#[test]
fn the_best_match_is_the_longest_then_the_first() {
    let pats = python().patterns();
    assert_eq!(find_best(b"\"\"\"", 0, &pats), Some(3));
    assert_eq!(find_best(b"\"\"\"", 1, &pats), Some(0));
    assert_eq!(find_best(b"abc", 1, &pats), None);
    assert_eq!(find_best(b"abc", 3, &pats), None);
    assert_eq!(find_best(b"abc", 9, &pats), None);
}

#[test]
fn a_text_matches_where_it_stands() {
    assert!(match_at(b"abcdef", 2, b"cd"));
    assert!(match_at(b"abcdef", 4, b"ef"));
    assert!(!match_at(b"abcdef", 5, b"fg"));
    assert!(!match_at(b"abcdef", 2, b"ce"));
    assert!(!match_at(b"abcdef", 2, b""));
    assert!(!match_at(b"abcdef", 7, b"a"));
    assert!(!match_at(b"abcdef", usize::MAX, b"ab"));
}

#[test]
fn only_python_toggles_block_comments() {
    assert!(python().is_toggle());
    assert!(!go().is_toggle());
    assert!(!sourcelink::parsers::lua::lua_profile().is_toggle());
    assert!(sourcelink::parsers::rust::rust_profile().nested_blocks_allowed);
    assert!(!sourcelink::parsers::c::c_profile().nested_blocks_allowed);
}

#[test]
fn transitions_follow_the_table() {
    let open = token(TokenKind::BlockOpen, 4, 6);
    let close = token(TokenKind::BlockClose, 8, 10);
    let line = token(TokenKind::LineComment, 4, 6);
    let newline = token(TokenKind::NewLine, 9, 10);
    let quote = token(TokenKind::StringDelimiter(1), 4, 5);
    let other = token(TokenKind::StringDelimiter(0), 7, 8);

    assert_eq!(
        step(false, false, ParseState::Default, &quote),
        (ParseState::InString { delimiter: 1 }, None)
    );
    assert_eq!(
        step(false, false, ParseState::Default, &line),
        (ParseState::InLineComment { start: 6 }, None)
    );
    assert_eq!(
        step(false, false, ParseState::Default, &open),
        (ParseState::InBlockComment { start: 6, depth: 0 }, None)
    );
    assert_eq!(
        step(false, false, ParseState::Default, &close),
        (ParseState::Default, None)
    );
    assert_eq!(
        step(false, false, ParseState::Default, &newline),
        (ParseState::Default, None)
    );

    let in_string = ParseState::InString { delimiter: 1 };
    assert_eq!(step(false, false, in_string, &other), (in_string, None));
    assert_eq!(step(false, false, in_string, &line), (in_string, None));
    assert_eq!(step(false, false, in_string, &open), (in_string, None));
    assert_eq!(
        step(false, false, in_string, &quote),
        (ParseState::Default, None)
    );

    let in_line = ParseState::InLineComment { start: 2 };
    assert_eq!(step(false, false, in_line, &quote), (in_line, None));
    assert_eq!(step(false, false, in_line, &close), (in_line, None));
    assert_eq!(
        step(false, false, in_line, &newline),
        (ParseState::Default, Some((2, 9)))
    );

    let block = ParseState::InBlockComment { start: 2, depth: 0 };
    let deeper = ParseState::InBlockComment { start: 2, depth: 1 };
    assert_eq!(step(false, false, block, &open), (block, None));
    assert_eq!(step(true, false, block, &open), (deeper, None));
    assert_eq!(step(true, false, deeper, &close), (block, None));
    assert_eq!(
        step(true, false, block, &close),
        (ParseState::Default, Some((2, 8)))
    );
    assert_eq!(
        step(false, true, block, &open),
        (ParseState::Default, Some((2, 4)))
    );
    assert_eq!(
        step(true, true, block, &open),
        (ParseState::Default, Some((2, 4)))
    );
    assert_eq!(step(true, false, block, &newline), (block, None));
}

#[test]
fn scan_reads_the_tokens_it_is_given() {
    let source = "ab/*cd*/ef//gh\n";
    let tokens = vec![
        token(TokenKind::BlockOpen, 2, 4),
        token(TokenKind::BlockClose, 6, 8),
        token(TokenKind::LineComment, 10, 12),
        token(TokenKind::NewLine, 14, 15),
    ];
    let comments = scan(source, &tokens, &go()).unwrap();
    assert_eq!(comments.len(), 2);
    assert_eq!(comments[0].content(), "cd");
    assert_eq!((comments[0].start(), comments[0].end()), (4, 6));
    assert_eq!(comments[1].content(), "gh");
    assert_eq!((comments[1].start(), comments[1].end()), (12, 14));

    assert!(scan(source, &Vec::new(), &go()).unwrap().is_empty());
    assert!(matches!(
        scan(source, &tokens[..3].to_vec(), &go()),
        Err(SourcelinkError::ParseError)
    ));
}

fn profile(
    strings: Vec<&'static str>,
    line: Option<&'static str>,
    open: Option<&'static str>,
    close: Option<&'static str>,
    nested: bool,
) -> GrammarProfile {
    GrammarProfile {
        string_delimiters: strings,
        line_comment_marker: line,
        block_comment_open: open,
        block_comment_close: close,
        nested_blocks_allowed: nested,
    }
}

#[test]
fn the_profiles_of_the_languages_are_valid() {
    for lang in [
        Lang::C,
        Lang::Go,
        Lang::JavaScript,
        Lang::Lua,
        Lang::Python,
        Lang::Rust,
    ] {
        let grammar = lang.grammar();
        assert!(grammar.is_well_formed());
        assert!(grammar.is_valid());
    }
    assert!(Lang::Python.grammar().is_toggle());
    assert!(Lang::Rust.grammar().nested_blocks_allowed);
    assert_eq!(Lang::JavaScript.grammar().string_delimiters, vec!["\"", "'", "`"]);
    assert_eq!(Lang::Lua.grammar().block_comment_open, None);
}

#[test]
fn a_profile_with_a_bad_delimiter_is_not_well_formed() {
    assert!(!profile(vec![""], None, None, None, false).is_well_formed());
    assert!(!profile(vec!["\"", "«"], None, None, None, false).is_well_formed());
    assert!(!profile(vec![], Some(""), None, None, false).is_well_formed());
    assert!(!profile(vec![], None, Some("/é"), Some("*/"), false).is_well_formed());
    assert!(!profile(vec![], None, Some("/*"), Some(""), false).is_valid());
    assert!(profile(vec![], None, None, None, false).is_valid());
}

#[test]
fn a_profile_with_a_repeated_delimiter_is_not_valid() {
    let twice = profile(vec!["\"", "'", "\""], None, None, None, false);
    assert!(twice.is_well_formed());
    assert!(!twice.is_valid());
    assert!(!profile(vec!["#"], Some("#"), None, None, false).is_valid());
    assert!(!profile(vec![], Some("--"), Some("--"), Some("]]"), false).is_valid());
    assert!(!profile(vec!["\n"], Some("#"), None, None, false).is_valid());
    assert!(!profile(vec![], Some("#"), Some("]]"), Some("\n"), false).is_valid());
    assert!(profile(vec![], Some("#"), Some("'''"), Some("'''"), false).is_valid());
}

#[test]
fn a_profile_of_ones_own_is_scanned_like_the_others() {
    let ml = profile(vec!["\""], Some(";"), Some("(*"), Some("*)"), true);
    assert!(ml.is_valid());
    let source = "(* a (* b *) c *) x \"; no\" ; y\n";
    let comments = sourcelink::engine::extract(source, &ml).unwrap();
    assert_eq!(comments.len(), 2);
    assert_eq!(comments[0].content(), " a (* b *) c ");
    assert_eq!((comments[0].start(), comments[0].end()), (2, 15));
    assert_eq!(comments[1].content(), " y");
    assert_eq!((comments[1].start(), comments[1].end()), (28, 30));
}

#[test]
fn a_profile_without_a_line_marker_has_no_newline_token() {
    let blocks = profile(vec![], None, Some("<!--"), Some("-->"), false);
    let tokens = tokenize("a\n<!-- b\n -->\n", &blocks);
    assert_eq!(
        tokens,
        vec![
            token(TokenKind::BlockOpen, 2, 6),
            token(TokenKind::BlockClose, 10, 13),
        ]
    );
    let comments = sourcelink::engine::extract("a\n<!-- b\n -->\n", &blocks).unwrap();
    assert_eq!(comments[0].content(), " b\n ");
}

#[test]
fn of_two_equal_delimiters_the_first_declared_wins() {
    let toggle = profile(vec![], None, Some("'''"), Some("'''"), true);
    let tokens = tokenize("'''a'''", &toggle);
    assert_eq!(
        tokens,
        vec![
            token(TokenKind::BlockOpen, 0, 3),
            token(TokenKind::BlockOpen, 4, 7),
        ]
    );
    let comments = sourcelink::engine::extract("'''a''' '''b'''", &toggle).unwrap();
    assert_eq!(comments.len(), 2);
    assert_eq!(comments[0].content(), "a");
    assert_eq!(comments[1].content(), "b");
}

#[test]
fn a_file_is_parsed_by_the_language_of_its_name() {
    let source = "/* a /* b */ c */";
    let first = |name: &str| {
        let comments = sourcelink::lang::parse(name, source).unwrap();
        (comments.len(), comments[0].content().to_string())
    };
    assert_eq!(first("lib.rs"), (1, " a /* b */ c ".to_string()));
    assert_eq!(first("main.c"), (1, " a /* b ".to_string()));
    assert_eq!(first("index.tsx"), (1, " a /* b ".to_string()));
    assert!(sourcelink::lang::parse("x.lua", source).unwrap().is_empty());
    assert!(matches!(
        sourcelink::lang::parse("x.go", "/* open"),
        Err(SourcelinkError::ParseError)
    ));
    match sourcelink::lang::parse("notes.txt", source) {
        Err(SourcelinkError::UnknownLanguage(name)) => assert_eq!(name, "notes.txt"),
        _ => panic!("a text file has no language"),
    }
}

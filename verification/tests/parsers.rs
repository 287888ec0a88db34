use sourcelink::error::SourcelinkError;
use sourcelink::parser::{Comment, Parser};
use sourcelink::parsers::{CParser, GoParser, LuaParser, PythonParser, RustParser};

const EXAMPLE_GO: &str = "package main\r\n\r\n// https://github.com/cschram/sourcelink\r\nfunc main() {\r\n\t/* lorem ipsum */\r\n\tprintln(\"// not a comment\")\r\n}\r\n\r\n// https://www.google.com\r\n/*\r\n/* lorem ipsum */\r\n";

const EXAMPLE_LUA: &str = "-- https://github.com/cschram/sourcelink\r\nlocal s = \"-- not a comment\"\r\nprint(s) -- https://www.google.com\r\n-- lorem -- ipsum\r\n";

const EXAMPLE_PY: &str = "# https://github.com/cschram/sourcelink\r\ndef main():\r\n    \"\"\"\r\n    # https://www.google.com\r\n    \"\"\"\r\n    print(\"# not a comment\")  # lorem ipsum\r\n";

fn contents<'a>(comments: &[Comment<'a>]) -> Vec<&'a str> {
    comments.iter().map(|c| c.content()).collect()
}

fn spans(comments: &[Comment<'_>]) -> Vec<(usize, usize)> {
    comments.iter().map(|c| (c.start(), c.end())).collect()
}

#[test]
fn go_parse() {
    let parser = GoParser;
    let result = parser.parse(EXAMPLE_GO);
    assert!(result.is_ok());
    let comments = result.unwrap();
    assert_eq!(comments.len(), 4);
    assert_eq!(
        comments[0].content(),
        " https://github.com/cschram/sourcelink\r"
    );
    assert_eq!(comments[1].content(), " lorem ipsum ");
    assert_eq!(comments[2].content(), " https://www.google.com\r");
    assert_eq!(comments[3].content(), "\r\n/* lorem ipsum ");
}

#[test]
fn lua_parse() {
    let parser = LuaParser;
    let result = parser.parse(EXAMPLE_LUA);
    assert!(result.is_ok());
    let comments = result.unwrap();
    assert_eq!(comments.len(), 3);
    assert_eq!(
        comments[0].content(),
        " https://github.com/cschram/sourcelink\r"
    );
    assert_eq!(comments[1].content(), " https://www.google.com\r");
    assert_eq!(comments[2].content(), " lorem -- ipsum\r");
}

#[test]
fn python_parse() {
    let parser = PythonParser;
    let result = parser.parse(EXAMPLE_PY);
    assert!(result.is_ok());
    let comments = result.unwrap();
    assert_eq!(comments.len(), 3);
    assert_eq!(
        comments[0].content(),
        " https://github.com/cschram/sourcelink\r"
    );
    assert_eq!(
        comments[1].content(),
        "\r\n    # https://www.google.com\r\n    "
    );
    assert_eq!(comments[2].content(), " lorem ipsum\r");
}

#[test]
fn go_scenario_keeps_carriage_returns_and_spans() {
    let source = "// url\r\n/* lorem ipsum */\r\ncode();\r\n// url2\r\n/*\r\n/* lorem ipsum */\r\n";
    let comments = GoParser.parse(source).unwrap();
    assert_eq!(
        contents(&comments),
        vec![" url\r", " lorem ipsum ", " url2\r", "\r\n/* lorem ipsum "]
    );
    assert_eq!(spans(&comments), vec![(2, 7), (10, 23), (38, 44), (47, 64)]);
}

#[test]
fn python_hash_inside_triple_quotes_is_content() {
    let source = "\"\"\"a # b\n\"\"\"\n# c\n";
    let comments = PythonParser.parse(source).unwrap();
    assert_eq!(contents(&comments), vec!["a # b\n", " c"]);
    assert_eq!(spans(&comments), vec![(3, 9), (14, 16)]);
}

#[test]
fn python_single_quote_string_hides_hash() {
    let comments = PythonParser.parse("x = '# no'\ny = \"# no\"\n").unwrap();
    assert!(comments.is_empty());
}

#[test]
fn nested_block_comment_is_one_comment() {
    let comments = RustParser.parse("/* a /* b */ c */").unwrap();
    assert_eq!(contents(&comments), vec![" a /* b */ c "]);
    assert_eq!(spans(&comments), vec![(2, 15)]);
}

#[test]
fn doubly_nested_block_comment_is_one_comment() {
    let comments = RustParser.parse("/*/*/**/*/*/ x").unwrap();
    assert_eq!(contents(&comments), vec!["/*/**/*/"]);
}

#[test]
fn without_nesting_the_first_close_ends_the_comment() {
    let comments = GoParser.parse("/* a /* b */ c */").unwrap();
    assert_eq!(contents(&comments), vec![" a /* b "]);
    assert_eq!(spans(&comments), vec![(2, 10)]);
    let comments = CParser.parse("/* a /* b */ c */").unwrap();
    assert_eq!(contents(&comments), vec![" a /* b "]);
}

#[test]
fn unterminated_block_comment_fails() {
    assert!(matches!(
        GoParser.parse("/* never closed"),
        Err(SourcelinkError::ParseError)
    ));
    assert!(matches!(
        RustParser.parse("/* a /* b */ never closed"),
        Err(SourcelinkError::ParseError)
    ));
    assert!(matches!(
        PythonParser.parse("\"\"\" never closed"),
        Err(SourcelinkError::ParseError)
    ));
}

#[test]
fn unterminated_line_comment_fails() {
    assert!(matches!(
        GoParser.parse("// no newline"),
        Err(SourcelinkError::ParseError)
    ));
    assert!(matches!(
        LuaParser.parse("x = 1 -- no newline"),
        Err(SourcelinkError::ParseError)
    ));
}

#[test]
fn unterminated_string_fails() {
    assert!(matches!(
        GoParser.parse("x := \"abc\n"),
        Err(SourcelinkError::ParseError)
    ));
}

#[test]
fn string_literal_hides_comment_markers() {
    let comments = GoParser.parse("a := \"// no /* no */\"\nb := `// no`\nc := '/'\n").unwrap();
    assert!(comments.is_empty());
    let comments = GoParser.parse("a := \"x\" // yes\n").unwrap();
    assert_eq!(contents(&comments), vec![" yes"]);
}

#[test]
fn string_closes_only_on_its_own_delimiter() {
    let comments = GoParser.parse("a := \"it's\" // one\nb := 'q\"q' // two\n").unwrap();
    assert_eq!(contents(&comments), vec![" one", " two"]);
}

#[test]
fn comment_hides_string_delimiters() {
    let comments = GoParser.parse("// it's \"fine\n/* don't */\n").unwrap();
    assert_eq!(contents(&comments), vec![" it's \"fine", " don't "]);
}

#[test]
fn empty_source_has_no_comments() {
    assert!(GoParser.parse("").unwrap().is_empty());
    assert!(LuaParser.parse("").unwrap().is_empty());
    assert!(PythonParser.parse("").unwrap().is_empty());
    assert!(CParser.parse("").unwrap().is_empty());
    assert!(RustParser.parse("").unwrap().is_empty());
}

#[test]
fn empty_comments_have_empty_content() {
    let comments = GoParser.parse("//\n/**/").unwrap();
    assert_eq!(contents(&comments), vec!["", ""]);
    assert_eq!(spans(&comments), vec![(2, 2), (5, 5)]);
}

#[test]
fn spans_are_byte_offsets_in_text_that_is_not_ascii() {
    let source = "é := \"ü\" // héllo ✓\n/* 日本語 */";
    let comments = GoParser.parse(source).unwrap();
    assert_eq!(contents(&comments), vec![" héllo ✓", " 日本語 "]);
    for c in &comments {
        assert_eq!(&source[c.start()..c.end()], c.content());
    }
}

#[test]
fn lua_has_no_block_comments() {
    let comments = LuaParser.parse("/* x */ -- y\n").unwrap();
    assert_eq!(contents(&comments), vec![" y"]);
}

#[test]
fn comments_are_sorted_and_do_not_overlap() {
    let comments = GoParser.parse(EXAMPLE_GO).unwrap();
    for pair in comments.windows(2) {
        assert!(pair[0].start() <= pair[0].end());
        assert!(pair[0].end() <= pair[1].start());
        assert!(pair[0].start() < pair[1].start());
    }
}

#[test]
fn parsing_twice_gives_the_same() {
    let first = PythonParser.parse(EXAMPLE_PY).unwrap();
    let second = PythonParser.parse(EXAMPLE_PY).unwrap();
    assert_eq!(contents(&first), contents(&second));
    assert_eq!(spans(&first), spans(&second));
}

#[test]
fn content_is_the_slice_of_the_span() {
    let comments = LuaParser.parse(EXAMPLE_LUA).unwrap();
    assert_eq!(comments.len(), 3);
    for c in &comments {
        let slice = sourcelink::parser::substr(EXAMPLE_LUA, c.start(), c.end()).unwrap();
        assert_eq!(slice, c.content());
    }
}

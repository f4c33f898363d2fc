use fexpr_lang::chars::Chars;
use fexpr_lang::error::Error;
use fexpr_lang::parser::is_whitespace;
use fexpr_lang::source::Value;
use fexpr_lang::value;
use fexpr_lang::{parse, parse_str, print};

fn text_of(v: &Value) -> String {
    let mut out = String::new();
    print(&mut out, &value::Value::from_source(v));
    out
}

fn syntax_error(code: &str) -> (String, usize, usize) {
    match parse("t", code.as_bytes()) {
        Err(Error::Syntax { source_info, msg }) => (msg, source_info.lineno, source_info.charno),
        other => panic!("no syntax error: {:?}", other),
    }
}

#[test]
fn empty_input_is_an_empty_program() {
    assert!(parse("t", b"").unwrap().is_empty());
    assert!(parse("t", b" \n\t\r ").unwrap().is_empty());
}

#[test]
fn atom_round_trip() {
    for text in ["a", "hello", "atom-eq?", "f!", "123", "é€"] {
        let program = parse_str(text).unwrap();
        assert_eq!(program.len(), 1);
        match &program[0] {
            Value::Atom(a) => assert_eq!(a.name, text),
            other => panic!("not an atom: {:?}", other),
        }
        assert_eq!(text_of(&program[0]), text);
    }
}

#[test]
fn program_round_trip() {
    let code = "(define f! (fexpr! (a b) ((atom-eq? a b)))) () (a (b (c)) d) x";
    let program = parse_str(code).unwrap();
    let printed: Vec<String> = program.iter().map(text_of).collect();
    assert_eq!(printed.join(" "), code);
    let again = parse_str(&printed.join("\n")).unwrap();
    let reprinted: Vec<String> = again.iter().map(text_of).collect();
    assert_eq!(printed, reprinted);
}

#[test]
fn positions_are_those_of_first_characters() {
    let program = parse("file", b"ab (c\n  d)\n e").unwrap();
    assert_eq!(program.len(), 3);
    match &program[0] {
        Value::Atom(a) => {
            assert_eq!(a.source_info.name, "file");
            assert_eq!((a.source_info.lineno, a.source_info.charno), (1, 1));
        }
        other => panic!("not an atom: {:?}", other),
    }
    match &program[1] {
        Value::List(l) => {
            assert_eq!((l.source_info.lineno, l.source_info.charno), (1, 4));
            assert_eq!(l.list.len(), 2);
            assert_eq!((l.list[0].source_info().lineno, l.list[0].source_info().charno), (1, 5));
            assert_eq!((l.list[1].source_info().lineno, l.list[1].source_info().charno), (2, 3));
        }
        other => panic!("not a list: {:?}", other),
    }
    assert_eq!((program[2].source_info().lineno, program[2].source_info().charno), (3, 2));
}

#[test]
fn escapes_are_taken_literally() {
    let program = parse("t", b"a\\ b \\(x\\) \\\\ q\\\nr").unwrap();
    let names: Vec<String> = program
        .iter()
        .map(|v| match v {
            Value::Atom(a) => a.name.clone(),
            other => panic!("not an atom: {:?}", other),
        })
        .collect();
    assert_eq!(names, vec!["a b", "(x)", "\\", "q\nr"]);
}

#[test]
fn unmatched_close_is_an_error() {
    assert_eq!(syntax_error("a )"), ("Unexpected ')'".to_string(), 1, 3));
}

#[test]
fn open_inside_an_atom_is_an_error() {
    assert_eq!(syntax_error("ab(c)"), ("Invalid character '('".to_string(), 1, 3));
}

#[test]
fn end_inside_a_list_is_an_error() {
    assert_eq!(syntax_error("(a (b)"), ("Expecting ')' found EOF".to_string(), 1, 6));
    assert_eq!(syntax_error("("), ("Expecting ')' found EOF".to_string(), 1, 1));
}

#[test]
fn end_after_a_backslash_is_an_error() {
    assert_eq!(syntax_error("ab\\"), ("Expect character after '\\'".to_string(), 1, 3));
}

#[test]
fn invalid_bytes_are_reported_when_reached() {
    assert!(matches!(parse("t", &[b'(', b'a', 0xff, b')']), Err(Error::Utf8([0xff, 0, 0, 0]))));
    assert!(matches!(parse("t", &[0x80]), Err(Error::Utf8([0x80, 0, 0, 0]))));
    assert!(matches!(parse("t", &[b')', 0xff]), Err(Error::Syntax { .. })));
}

#[test]
fn stream_parser_takes_a_decoder() {
    let program = fexpr_lang::parser::parse("n", Chars::new(b"(x y) z")).unwrap();
    assert_eq!(program.len(), 2);
    assert_eq!(text_of(&program[0]), "(x y)");
}

#[test]
fn parse_str_names_its_source() {
    let name_of = |code: &str| parse_str(code).unwrap()[0].source_info().name.clone();
    assert_eq!(name_of("abc"), "str:`abc...'");
    assert_eq!(name_of("  \n (define! a 1) (b) \t"), "str:`(define! a...'");
    assert_eq!(name_of("0123456789"), "str:`0123456789...'");
    assert_eq!(name_of("0123456789a"), "str:`0123456789...'");
    assert_eq!(name_of("é€é€é€é€é€é€ x"), "str:`é€é€é€é€é€...'");
}

#[test]
fn whitespace_is_unicode_white_space() {
    for c in ['\t', '\n', '\u{b}', '\u{c}', '\r', ' ', '\u{85}', '\u{a0}', '\u{1680}', '\u{2000}',
        '\u{200a}', '\u{2028}', '\u{2029}', '\u{202f}', '\u{205f}', '\u{3000}'] {
        assert!(is_whitespace(c));
    }
    for c in ['a', '(', ')', '\\', '\u{8}', '\u{e}', '\u{200b}', '\u{180e}', '\u{feff}'] {
        assert!(!is_whitespace(c));
    }
    let mut c = '\0';
    loop {
        assert_eq!(is_whitespace(c), c.is_whitespace());
        match char::from_u32(c as u32 + 1) {
            Some(next) => c = next,
            None if (c as u32) < 0xdfff => c = '\u{e000}',
            None => break,
        }
    }
}

use teko::data_structures::{Coredata, Sourcedata};
use teko::parse::{parse_character, parse_string, finish_parsing_characters, ParseState};

#[test]
fn assert_expressions_ok() {
    for text in [
        "", " ", "  ", "[", "]", "{", "}", ".", ",", "'", "\"", "", " ", "  ", "[", "]>", "<{",
        "}|", ".^", ",-", "'", "\"", "()", " ()", "() ", " () ", " ( ) ", "test", "(test)",
        " (test)", "(test) ", " (test) ", "(test1 (test2))",
        "(test1 (test2 test3 test4) test5) test6",
    ] {
        assert!(parse_string(text).is_ok());
    }
}

#[test]
fn assert_expressions_err() {
    for text in ["(", ")", "(test", "test)", "(test1 (test2)"] {
        assert!(parse_string(text).is_err());
    }
}

fn symbol_name(node: &Sourcedata) -> String {
    match &node.1 {
        Coredata::Symbol(name) => name.clone(),
        _ => panic!("expected a symbol"),
    }
}

#[test]
fn reads_forms_in_order() {
    let program = parse_string("a (b c) d").ok().unwrap();
    assert_eq!(program.len(), 3);
    assert_eq!(symbol_name(&program[0]), "a");
    assert_eq!(symbol_name(&program[1].head()), "b");
    assert_eq!(symbol_name(&program[1].tail().head()), "c");
    assert!(matches!(program[1].tail().tail().1, Coredata::Null));
    assert_eq!(symbol_name(&program[2]), "d");
}

#[test]
fn records_where_tokens_start() {
    let program = parse_string("(ab\n  cd)").ok().unwrap();
    let first = program[0].head();
    let second = program[0].tail().head();
    let at = first.0.as_ref().unwrap();
    assert_eq!((at.line, at.column), (1, 2));
    let at = second.0.as_ref().unwrap();
    assert_eq!((at.line, at.column), (2, 3));
}

#[test]
fn reports_which_parenthesis_is_unmatched() {
    let state = parse_string("(a").err().unwrap();
    assert_eq!(state.error.as_deref(), Some("Unmatched opening parenthesis"));
    let state = parse_string("a)").err().unwrap();
    assert_eq!(state.error.as_deref(), Some("Unmatched closing parenthesis"));
}

#[test]
fn unicode_whitespace_separates_tokens() {
    let program = parse_string("a\u{3000}b\u{a0}c").ok().unwrap();
    assert_eq!(program.len(), 3);
}

#[test]
fn reads_character_by_character() {
    let mut state = ParseState::from_file("source");
    for c in "(x y)".chars() {
        parse_character(c, &mut state);
    }
    let program = finish_parsing_characters(state).ok().unwrap();
    assert_eq!(program.len(), 1);
    assert_eq!(program[0].0.as_ref().unwrap().source, "source");
}

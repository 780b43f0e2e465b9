use rexp::parse::{num, string, symbol};
use rexp::{atom, Atom, Decimal, Num};

fn fl(neg: bool, whole: &str, frac: &str) -> Num {
    Num::Float(Decimal { neg, whole: whole.to_string(), frac: frac.to_string() })
}

// Strings

#[test]
fn parse_parse_whole_scm_string() {
    assert_eq!(
        string("\"This is a test\""),
        Ok(("", "This is a test".to_owned()))
    );
}

#[test]
fn parse_parse_scm_string_with_escaped_quotes() {
    assert_eq!(
        string("\"This is a \\\"test\\\"\""),
        Ok(("", "This is a \"test\"".to_owned()))
    );
    // With unclosed escaped string too
    assert_eq!(
        string("\"This is a \\\"test\" and some more stuff"),
        Ok((" and some more stuff", "This is a \"test".to_owned()))
    );
}

#[test]
fn parse_fail_to_parse_scm_string_without_active_quotes() {
    assert!(string("this is a test").is_err());
    // And also with escaped quotes
    assert!(string("\\\"this is \\\" a \\\"test\\\"").is_err());
}

// Numbers

#[test]
fn parse_parse_positive_integer() {
    assert_eq!(num("45"), Ok(("", Num::Int(45))));
}

#[test]
fn parse_parse_negative_integer() {
    assert_eq!(num("-562"), Ok(("", Num::Int(-562))));
}

#[test]
fn parse_parse_positive_float() {
    assert_eq!(num("67.432"), Ok(("", fl(false, "67", "432"))));
    assert_eq!("67.432".parse::<f64>().unwrap(), 67.432);
}

#[test]
fn parse_parse_negative_float() {
    assert_eq!(num("-254.345"), Ok(("", fl(true, "254", "345"))));
    assert_eq!("-254.345".parse::<f64>().unwrap(), -254.345);
}

// Symbols

#[test]
fn parse_parse_simple_symbols() {
    assert_eq!(symbol("map"), Ok(("", "map".to_owned())));
    assert_eq!(
        symbol("^!symbols#$%legal"),
        Ok(("", "^!symbols#$%legal".to_owned()))
    );
    assert_eq!(symbol("regular-name"), Ok(("", "regular-name".to_owned())));
}

#[test]
fn parse_only_get_first_symbol() {
    assert_eq!(
        symbol("this is a test"),
        Ok((" is a test", "this".to_owned()))
    );
}

#[test]
fn parse_parse_delimited_symbol() {
    assert_eq!(
        symbol("|this is a symbol|"),
        Ok(("", "this is a symbol".to_owned()))
    );
}

#[test]
fn parse_delimited_symbol_with_unmatched_delimiters() {
    assert_eq!(symbol("|this"), Ok(("", "|this".to_owned())));
    assert_eq!(
        symbol("|these are many symbols"),
        Ok((" are many symbols", "|these".to_owned()))
    );
    assert_eq!(symbol("this|"), Ok(("", "this|".to_owned())));
    assert_eq!(
        symbol("this|is many symbols"),
        Ok((" many symbols", "this|is".to_owned()))
    );
}

// Numbers, through the atom dispatcher

#[test]
fn parse_num_integer() {
    assert_eq!(num("45"), Ok(("", Num::Int(45))));

    assert_eq!(num("-562"), Ok(("", Num::Int(-562))));
}

#[test]
fn parse_num_float() {
    assert_eq!(num("67.432"), Ok(("", fl(false, "67", "432"))));

    assert_eq!(num("-254.345"), Ok(("", fl(true, "254", "345"))));
}

#[test]
fn parse_atom_integer() {
    assert_eq!(atom("45"), Ok(("", Atom::Num(Num::Int(45)))));

    assert_eq!(atom("-562"), Ok(("", Atom::Num(Num::Int(-562)))));
}

#[test]
fn parse_atom_float() {
    assert_eq!(atom("67.432"), Ok(("", Atom::Num(fl(false, "67", "432")))));

    assert_eq!(atom("-254.345"), Ok(("", Atom::Num(fl(true, "254", "345")))));
}

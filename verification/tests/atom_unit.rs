use rexp::parse::{num, string, symbol};
use rexp::{atom, Atom, Decimal, Num};

fn fl(neg: bool, whole: &str, frac: &str) -> Num {
    Num::Float(Decimal { neg, whole: whole.to_string(), frac: frac.to_string() })
}

// Strings

#[test]
fn atom_parse_whole_scm_string() {
    assert_eq!(
        string("\"This is a test\""),
        Ok(("", "This is a test".to_owned()))
    );
}

#[test]
fn atom_parse_scm_string_with_escaped_quotes() {
    assert_eq!(
        string("\"This is a \\\"test\\\"\""),
        Ok(("", "This is a \"test\"".to_owned()))
    );
    // With unclosed escaped string too
    assert_eq!(
        string("\"This is a \\\"test\" and some more stuff"),
        Ok((" and some more stuff", "This is a \"test".to_owned()))
    );
}

#[test]
fn atom_fail_to_parse_scm_string_without_active_quotes() {
    assert!(string("this is a test").is_err());
    // And also with escaped quotes
    assert!(string("\\\"this is \\\" a \\\"test\\\"").is_err());
}

// Numbers

#[test]
fn atom_parse_positive_integer() {
    assert_eq!(num("45"), Ok(("", Num::Int(45))));
}

#[test]
fn atom_parse_negative_integer() {
    assert_eq!(num("-562"), Ok(("", Num::Int(-562))));
}

#[test]
fn atom_parse_positive_float() {
    assert_eq!(num("67.432"), Ok(("", fl(false, "67", "432"))));
}

#[test]
fn atom_parse_negative_float() {
    assert_eq!(num("-254.345"), Ok(("", fl(true, "254", "345"))));
}

// Symbols

#[test]
fn atom_parse_simple_symbols() {
    assert_eq!(symbol("map"), Ok(("", "map".to_owned())));
    assert_eq!(
        symbol("^!symbols#$%legal"),
        Ok(("", "^!symbols#$%legal".to_owned()))
    );
    assert_eq!(symbol("regular-name"), Ok(("", "regular-name".to_owned())));
}

#[test]
fn atom_only_get_first_symbol() {
    assert_eq!(
        symbol("this is a test"),
        Ok((" is a test", "this".to_owned()))
    );
}

#[test]
fn atom_parse_delimited_symbol() {
    assert_eq!(
        symbol("|this is a symbol|"),
        Ok(("", "this is a symbol".to_owned()))
    );
}

#[test]
fn atom_delimited_symbol_with_unmatched_delimiters() {
    assert_eq!(symbol("|this"), Ok(("", "|this".to_owned())));
    assert_eq!(
        symbol("|these are many symbols"),
        Ok((" are many symbols", "|these".to_owned()))
    );
    assert_eq!(symbol("this|"), Ok(("", "this|".to_owned())));
    assert_eq!(
        symbol("this|is many symbols"),
        Ok((" many symbols", "this|is".to_owned()))
    );
}

// Numbers

#[test]
fn atom_num_integer() {
    assert_eq!(num("45"), Ok(("", Num::Int(45))));

    assert_eq!(num("-562"), Ok(("", Num::Int(-562))));
}

#[test]
fn atom_num_float() {
    assert_eq!(num("67.432"), Ok(("", fl(false, "67", "432"))));

    assert_eq!(num("-254.345"), Ok(("", fl(true, "254", "345"))));
}

#[test]
fn atom_atom_integer() {
    assert_eq!(atom("45"), Ok(("", Atom::Num(Num::Int(45)))));

    assert_eq!(atom("-562"), Ok(("", Atom::Num(Num::Int(-562)))));
}

#[test]
fn atom_atom_float() {
    assert_eq!(atom("67.432"), Ok(("", Atom::Num(fl(false, "67", "432")))));

    assert_eq!(atom("-254.345"), Ok(("", Atom::Num(fl(true, "254", "345")))));
}

// Atoms

// Strings

#[test]
fn atom_parse_whole_atom_string() {
    assert_eq!(
        atom("\"This is a test\""),
        Ok(("", Atom::String("This is a test".to_owned())))
    );
}

#[test]
fn atom_atom_string_with_escaped_quotes() {
    assert_eq!(
        atom("\"This is a \\\"test\\\"\""),
        Ok(("", Atom::String("This is a \"test\"".to_owned())))
    );
    // With unclosed escaped string too
    assert_eq!(
        atom("\"This is a \\\"test\" and some more stuff"),
        Ok((
            " and some more stuff",
            Atom::String("This is a \"test".to_owned())
        ))
    );
}

// Symbols

#[test]
fn atom_atom_symbols() {
    assert_eq!(atom("map"), Ok(("", Atom::Symbol("map".to_owned()))));
    assert_eq!(
        atom("^!symbols#$%legal"),
        Ok(("", Atom::Symbol("^!symbols#$%legal".to_owned())))
    );
    assert_eq!(
        atom("regular-name"),
        Ok(("", Atom::Symbol("regular-name".to_owned())))
    );
    // only get first symbol
    assert_eq!(
        atom("this is a test"),
        Ok((" is a test", Atom::Symbol("this".to_owned())))
    );
    // parse delimited symbol
    assert_eq!(
        atom("|this is a symbol|"),
        Ok(("", Atom::Symbol("this is a symbol".to_owned())))
    );
    // delimited symbol with unmatched delimiters
    assert_eq!(atom("|this"), Ok(("", Atom::Symbol("|this".to_owned()))));
    assert_eq!(
        atom("|these are many symbols"),
        Ok((" are many symbols", Atom::Symbol("|these".to_owned())))
    );
    assert_eq!(atom("this|"), Ok(("", Atom::Symbol("this|".to_owned()))));
    assert_eq!(
        atom("this|is many symbols"),
        Ok((" many symbols", Atom::Symbol("this|is".to_owned())))
    );
}

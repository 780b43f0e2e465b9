//! The recursive expression grammar: quote forms, lists, vectors, and the
//! top-level dispatcher.
//!
//! The dispatcher tries quote form, list, vector, atom, in that order; the
//! atom rule comes last because its bare-symbol fallback would otherwise
//! consume the markers that open the other forms. Once a form's opening
//! marker has been consumed, failure to complete the form is committed: it
//! propagates as a fatal error instead of letting an outer dispatcher try
//! a different alternative.
use vstd::prelude::*;

use crate::atom::{
    atom_at, float_text, int_text, is_int_text, lemma_atom_bounds, lemma_digit_char_plain,
    lemma_num_float_text, lemma_num_int_text, lemma_num_int_text_not_float, spec_atom, spec_char,
    spec_num, spec_string, spec_symbol,
};
use crate::chars::{is_digit_char, lemma_ws_run_end, scan_ws, ws_run_end};
use crate::err::{FatalKind, ParseErr, SpecParse};
use crate::expr::{
    lemma_sexp_seq_view, sexp_seq_view, Quote, Sexp, SpecAtom, SpecDecimal, SpecNum, SpecQuote,
    SpecSexp,
};

pub use crate::atom::{atom, lit_char, num, process_char, string, symbol};

verus! {

/// What the quote-form parser does at position `i`: one of the four
/// quoting markers, then one full expression as payload. Unquote and
/// splice reject a payload that is a bare atomic constant, as a committed
/// failure. A marker with no parsable payload is committed too: the
/// construct was identified, so the failure is fatal.
pub open spec fn spec_quote(s: Seq<char>, i: int) -> SpecParse<SpecQuote>
    decreases s.len() - i, 0int,
{
    if i < s.len() && (s[i] == '\'' || s[i] == '`' || s[i] == ',' || s[i] == '@') {
        match spec_sexp(s, i + 1) {
            SpecParse::Found(j, v) => if s[i] == '\'' {
                SpecParse::Found(j, SpecQuote::Quote(Box::new(v)))
            } else if s[i] == '`' {
                SpecParse::Found(j, SpecQuote::Quasi(Box::new(v)))
            } else if s[i] == ',' {
                if v matches SpecSexp::Constant(_) {
                    SpecParse::Failed(ParseErr::Fatal(FatalKind::UnquoteLiteral))
                } else {
                    SpecParse::Found(j, SpecQuote::UnQuote(Box::new(v)))
                }
            } else {
                if v matches SpecSexp::Constant(_) {
                    SpecParse::Failed(ParseErr::Fatal(FatalKind::SpliceLiteral))
                } else {
                    SpecParse::Found(j, SpecQuote::Splice(Box::new(v)))
                }
            },
            SpecParse::Failed(e) => SpecParse::Failed(
                if e matches ParseErr::Fatal(_) {
                    e
                } else {
                    ParseErr::Fatal(FatalKind::QuotedExpr)
                },
            ),
        }
    } else {
        SpecParse::Failed(ParseErr::Mismatch)
    }
}

/// What the element loop inside a list does from position `i`: skip
/// whitespace, parse one expression, and repeat until an expression does
/// not match; the stop position rewinds to before the skipped whitespace.
/// A committed failure of an element is propagated. The two guard branches
/// that fail with a mismatch are unreachable: `lemma_parse_consumes` shows
/// the scan stays in bounds and every parsed element consumes input.
pub open spec fn spec_elems(s: Seq<char>, i: int) -> SpecParse<Seq<SpecSexp>>
    decreases s.len() - i, 2int,
{
    let m = ws_run_end(s, i);
    if m < i || m > s.len() {
        SpecParse::Failed(ParseErr::Mismatch)
    } else {
        match spec_sexp(s, m) {
            SpecParse::Found(j, v) => if m < j <= s.len() {
                match spec_elems(s, j) {
                    SpecParse::Found(k, rest) => SpecParse::Found(k, seq![v] + rest),
                    SpecParse::Failed(e) => SpecParse::Failed(e),
                }
            } else {
                SpecParse::Failed(ParseErr::Mismatch)
            },
            SpecParse::Failed(e) => if e matches ParseErr::Fatal(_) {
                SpecParse::Failed(e)
            } else {
                SpecParse::Found(i, Seq::empty())
            },
        }
    }
}

/// What the list parser does at position `i`: `(`, whitespace-separated
/// elements, optional whitespace, `)`. Once the opening parenthesis is
/// consumed the parse is committed: a missing closing parenthesis is the
/// fatal closing-paren error, never a silent reinterpretation.
pub open spec fn spec_list(s: Seq<char>, i: int) -> SpecParse<Seq<SpecSexp>>
    decreases s.len() - i, 0int,
{
    if i < s.len() && s[i] == '(' {
        match spec_elems(s, i + 1) {
            SpecParse::Found(j, elems) => {
                let m = ws_run_end(s, j);
                if m < s.len() && s[m] == ')' {
                    SpecParse::Found(m + 1, elems)
                } else {
                    SpecParse::Failed(ParseErr::Fatal(FatalKind::ClosingParen))
                }
            },
            SpecParse::Failed(e) => SpecParse::Failed(e),
        }
    } else {
        SpecParse::Failed(ParseErr::Mismatch)
    }
}

/// What the vector parser does at position `i`: `#` immediately followed
/// by a list, with the same closing-paren commitment as the list itself.
pub open spec fn spec_vector(s: Seq<char>, i: int) -> SpecParse<Seq<SpecSexp>>
    decreases s.len() - i, 0int,
{
    if i < s.len() && s[i] == '#' {
        spec_list(s, i + 1)
    } else {
        SpecParse::Failed(ParseErr::Mismatch)
    }
}

/// What the top-level expression dispatcher does at position `i`: try
/// quote form, list, vector, atom, in that order, stopping at the first
/// match or at the first committed failure.
pub open spec fn spec_sexp(s: Seq<char>, i: int) -> SpecParse<SpecSexp>
    decreases s.len() - i, 1int,
{
    match spec_quote(s, i) {
        SpecParse::Found(j, q) => SpecParse::Found(j, SpecSexp::Quote(q)),
        SpecParse::Failed(e1) => if e1 matches ParseErr::Fatal(_) {
            SpecParse::Failed(e1)
        } else {
            match spec_list(s, i) {
                SpecParse::Found(j, v) => SpecParse::Found(j, SpecSexp::List(v)),
                SpecParse::Failed(e2) => if e2 matches ParseErr::Fatal(_) {
                    SpecParse::Failed(e2)
                } else {
                    match spec_vector(s, i) {
                        SpecParse::Found(j, v) => SpecParse::Found(j, SpecSexp::Vector(v)),
                        SpecParse::Failed(e3) => if e3 matches ParseErr::Fatal(_) {
                            SpecParse::Failed(e3)
                        } else {
                            match spec_atom(s, i) {
                                SpecParse::Found(j, a) => SpecParse::Found(
                                    j,
                                    SpecSexp::Constant(a),
                                ),
                                SpecParse::Failed(e4) => SpecParse::Failed(e4),
                            }
                        },
                    }
                },
            }
        },
    }
}

/// Every successful parse consumes at least one character (an element
/// sequence may be empty and consume none) and stays within the input.
pub proof fn lemma_parse_consumes(s: Seq<char>, i: int)
    requires
        0 <= i <= s.len(),
    ensures
        spec_quote(s, i) matches SpecParse::Found(j, _) ==> i < j <= s.len(),
        spec_list(s, i) matches SpecParse::Found(j, _) ==> i < j <= s.len(),
        spec_vector(s, i) matches SpecParse::Found(j, _) ==> i < j <= s.len(),
        spec_sexp(s, i) matches SpecParse::Found(j, _) ==> i < j <= s.len(),
        spec_elems(s, i) matches SpecParse::Found(j, _) ==> i <= j <= s.len(),
    decreases s.len() - i,
{
    lemma_atom_bounds(s, i);
    lemma_ws_run_end(s, i);
    if i < s.len() {
        lemma_parse_consumes(s, i + 1);
    }
    // the closing-paren scan of a list stays in bounds
    if i < s.len() && s[i] == '(' {
        match spec_elems(s, i + 1) {
            SpecParse::Found(j2, _) => {
                lemma_ws_run_end(s, j2);
            },
            SpecParse::Failed(_) => {},
        }
    }
    // the element loop: its whitespace skip stays in bounds, each parsed
    // element consumes input, and the rest of the loop starts past it
    let m = ws_run_end(s, i);
    if m > i {
        lemma_parse_consumes(s, m);
    }
    match spec_sexp(s, m) {
        SpecParse::Found(j, _) => {
            if m < j && j <= s.len() {
                lemma_parse_consumes(s, j);
            }
        },
        SpecParse::Failed(_) => {},
    }
}

/// Parses a quote form at position `i`.
pub(crate) fn quote_at(s: &str, i: usize) -> (r: Result<(usize, Quote), ParseErr>)
    requires
        i <= s@.len(),
    ensures
        match spec_quote(s@, i as int) {
            SpecParse::Found(j, q) => r matches Ok((jj, val)) && jj as int == j && val@ == q,
            SpecParse::Failed(e) => r matches Err(e2) && e2 == e,
        },
    decreases s@.len() - i, 0int,
{
    let n = s.unicode_len();
    if i < n {
        let c = s.get_char(i);
        if c == '\'' || c == '`' || c == ',' || c == '@' {
            return match sexp_at(s, i + 1) {
                Ok((j, v)) => {
                    if c == '\'' {
                        Ok((j, Quote::Quote(Box::new(v))))
                    } else if c == '`' {
                        Ok((j, Quote::Quasi(Box::new(v))))
                    } else {
                        let lit = match &v {
                            Sexp::Constant(_) => true,
                            _ => false,
                        };
                        if c == ',' {
                            if lit {
                                Err(ParseErr::Fatal(FatalKind::UnquoteLiteral))
                            } else {
                                Ok((j, Quote::UnQuote(Box::new(v))))
                            }
                        } else {
                            if lit {
                                Err(ParseErr::Fatal(FatalKind::SpliceLiteral))
                            } else {
                                Ok((j, Quote::Splice(Box::new(v))))
                            }
                        }
                    }
                },
                Err(e) => {
                    if e.is_fatal() {
                        Err(e)
                    } else {
                        Err(ParseErr::Fatal(FatalKind::QuotedExpr))
                    }
                },
            };
        }
    }
    Err(ParseErr::Mismatch)
}

/// Parses the whitespace-separated elements of a list from position `i`.
pub(crate) fn elems_at(s: &str, i: usize) -> (r: Result<(usize, Vec<Sexp>), ParseErr>)
    requires
        i <= s@.len(),
    ensures
        match spec_elems(s@, i as int) {
            SpecParse::Found(j, es) => r matches Ok((jj, v)) && jj as int == j && sexp_seq_view(
                v@,
            ) == es,
            SpecParse::Failed(e) => r matches Err(e2) && e2 == e,
        },
    decreases s@.len() - i, 2int,
{
    let m = scan_ws(s, i);
    match sexp_at(s, m) {
        Ok((j, v)) => {
            proof {
                lemma_parse_consumes(s@, m as int);
            }
            match elems_at(s, j) {
                Ok((k, mut rest)) => {
                    let ghost pre = rest@;
                    let ghost v_view = v@;
                    rest.insert(0, v);
                    proof {
                        assert(rest@ =~= seq![v] + pre);
                        assert(rest@.first() == v);
                        assert(rest@.drop_first() =~= pre);
                        lemma_sexp_seq_view(rest@);
                        assert(sexp_seq_view(rest@) =~= seq![v_view] + sexp_seq_view(pre));
                    }
                    Ok((k, rest))
                },
                Err(e) => Err(e),
            }
        },
        Err(e) => {
            if e.is_fatal() {
                Err(e)
            } else {
                Ok((i, Vec::new()))
            }
        },
    }
}

/// Parses a parenthesized list at position `i`.
pub(crate) fn list_at(s: &str, i: usize) -> (r: Result<(usize, Vec<Sexp>), ParseErr>)
    requires
        i <= s@.len(),
    ensures
        match spec_list(s@, i as int) {
            SpecParse::Found(j, es) => r matches Ok((jj, v)) && jj as int == j && sexp_seq_view(
                v@,
            ) == es,
            SpecParse::Failed(e) => r matches Err(e2) && e2 == e,
        },
    decreases s@.len() - i, 0int,
{
    let n = s.unicode_len();
    if i < n && s.get_char(i) == '(' {
        match elems_at(s, i + 1) {
            Ok((j, es)) => {
                proof {
                    lemma_parse_consumes(s@, i as int + 1);
                }
                let m = scan_ws(s, j);
                if m < n && s.get_char(m) == ')' {
                    Ok((m + 1, es))
                } else {
                    Err(ParseErr::Fatal(FatalKind::ClosingParen))
                }
            },
            Err(e) => Err(e),
        }
    } else {
        Err(ParseErr::Mismatch)
    }
}

/// Parses a vector at position `i`.
pub(crate) fn vector_at(s: &str, i: usize) -> (r: Result<(usize, Vec<Sexp>), ParseErr>)
    requires
        i <= s@.len(),
    ensures
        match spec_vector(s@, i as int) {
            SpecParse::Found(j, es) => r matches Ok((jj, v)) && jj as int == j && sexp_seq_view(
                v@,
            ) == es,
            SpecParse::Failed(e) => r matches Err(e2) && e2 == e,
        },
    decreases s@.len() - i, 0int,
{
    let n = s.unicode_len();
    if i < n && s.get_char(i) == '#' {
        list_at(s, i + 1)
    } else {
        Err(ParseErr::Mismatch)
    }
}

/// Parses one full expression at position `i`.
pub(crate) fn sexp_at(s: &str, i: usize) -> (r: Result<(usize, Sexp), ParseErr>)
    requires
        i <= s@.len(),
    ensures
        match spec_sexp(s@, i as int) {
            SpecParse::Found(j, v) => r matches Ok((jj, val)) && jj as int == j && val@ == v,
            SpecParse::Failed(e) => r matches Err(e2) && e2 == e,
        },
    decreases s@.len() - i, 1int,
{
    match quote_at(s, i) {
        Ok((j, q)) => {
            return Ok((j, Sexp::Quote(q)));
        },
        Err(e1) => {
            if e1.is_fatal() {
                return Err(e1);
            }
        },
    }
    match list_at(s, i) {
        Ok((j, v)) => {
            return Ok((j, Sexp::List(v)));
        },
        Err(e2) => {
            if e2.is_fatal() {
                return Err(e2);
            }
        },
    }
    match vector_at(s, i) {
        Ok((j, v)) => {
            return Ok((j, Sexp::Vector(v)));
        },
        Err(e3) => {
            if e3.is_fatal() {
                return Err(e3);
            }
        },
    }
    match atom_at(s, i) {
        Ok((j, a)) => Ok((j, Sexp::Constant(a))),
        Err(e4) => Err(e4),
    }
}

/// Parses a quote form from the start of `i`, returning the form and the
/// unconsumed remainder.
pub fn quote<'a>(i: &'a str) -> (r: Result<(&'a str, Quote), ParseErr>)
    ensures
        match spec_quote(i@, 0) {
            SpecParse::Found(j, q) => r matches Ok((rem, val)) && val@ == q && rem@ == i@.subrange(
                j,
                i@.len() as int,
            ),
            SpecParse::Failed(e) => r matches Err(e2) && e2 == e,
        },
{
    let n = i.unicode_len();
    match quote_at(i, 0) {
        Ok((j, q)) => {
            proof {
                lemma_parse_consumes(i@, 0);
            }
            Ok((i.substring_char(j, n), q))
        },
        Err(e) => Err(e),
    }
}

/// The single entry point: parses one full expression from the start of
/// `i`, returning the expression tree and the unconsumed remainder. A
/// caller that wants the whole input consumed inspects the remainder.
pub fn sexp<'a>(i: &'a str) -> (r: Result<(&'a str, Sexp), ParseErr>)
    ensures
        match spec_sexp(i@, 0) {
            SpecParse::Found(j, v) => r matches Ok((rem, val)) && val@ == v && rem@ == i@.subrange(
                j,
                i@.len() as int,
            ),
            SpecParse::Failed(e) => r matches Err(e2) && e2 == e,
        },
{
    let n = i.unicode_len();
    match sexp_at(i, 0) {
        Ok((j, v)) => {
            proof {
                lemma_parse_consumes(i@, 0);
            }
            Ok((i.substring_char(j, n), v))
        },
        Err(e) => Err(e),
    }
}

/// A text whose first character is a sign or digit reaches the atom rule
/// untouched: it opens no quote form, list, or vector, so the dispatcher
/// returns exactly what the numeric-literal rule produced.
proof fn lemma_sexp_from_num(s: Seq<char>)
    requires
        s.len() >= 1,
        s[0] == '-' || is_digit_char(s[0]),
        spec_num(s, 0) matches SpecParse::Found(_, _),
    ensures
        spec_sexp(s, 0) == (match spec_num(s, 0) {
            SpecParse::Found(j, v) => SpecParse::Found(j, SpecSexp::Constant(SpecAtom::Num(v))),
            SpecParse::Failed(e) => SpecParse::Failed(e),
        }),
{
    if is_digit_char(s[0]) {
        lemma_digit_char_plain(s[0]);
    }
    assert(spec_quote(s, 0) == SpecParse::<SpecQuote>::Failed(ParseErr::Mismatch));
    assert(spec_list(s, 0) == SpecParse::<Seq<SpecSexp>>::Failed(ParseErr::Mismatch));
    assert(spec_vector(s, 0) == SpecParse::<Seq<SpecSexp>>::Failed(ParseErr::Mismatch));
}

/// Parsing the decimal text of any integer in the representable range
/// yields exactly that integer atom, with the whole text consumed (the
/// remainder is empty). The one representable integer whose text does not
/// parse back is the least one: its digits alone exceed the largest
/// representable value, and the sign is applied only after conversion.
pub proof fn lemma_parse_int_round_trip(n: int)
    requires
        i64::MIN < n <= i64::MAX,
    ensures
        spec_sexp(int_text(n), 0) == SpecParse::Found(
            int_text(n).len() as int,
            SpecSexp::Constant(SpecAtom::Num(SpecNum::Int(n))),
        ),
{
    lemma_num_int_text(n);
    lemma_sexp_from_num(int_text(n));
}

/// Parsing the decimal text `-?whole.frac` of any float literal with
/// non-empty whole and fractional digit runs yields exactly that float
/// atom — sign and both digit runs preserved verbatim — with the whole
/// text consumed (the remainder is empty).
pub proof fn lemma_parse_float_round_trip(neg: bool, whole: Seq<char>, frac: Seq<char>)
    requires
        whole.len() >= 1,
        frac.len() >= 1,
        forall|k: int| 0 <= k < whole.len() ==> is_digit_char(whole[k]),
        forall|k: int| 0 <= k < frac.len() ==> is_digit_char(frac[k]),
    ensures
        spec_sexp(float_text(neg, whole, frac), 0) == SpecParse::Found(
            float_text(neg, whole, frac).len() as int,
            SpecSexp::Constant(
                SpecAtom::Num(SpecNum::Float(SpecDecimal { neg, whole, frac })),
            ),
        ),
{
    lemma_num_float_text(neg, whole, frac);
    lemma_sexp_from_num(float_text(neg, whole, frac));
}

/// Parsing integer-only text (an optional sign, then digits, with no dot)
/// never yields a float: the result, when there is one, is an integer
/// atom or — for digits beyond the representable range — a symbol.
pub proof fn lemma_int_text_never_float(s: Seq<char>)
    requires
        is_int_text(s),
    ensures
        spec_sexp(s, 0) matches SpecParse::Found(j, v) ==> !(v matches SpecSexp::Constant(
            SpecAtom::Num(SpecNum::Float(_)),
        )),
{
    lemma_num_int_text_not_float(s);
    let d0: int = if s.len() > 0 && s[0] == '-' {
        1
    } else {
        0
    };
    if d0 == 0 {
        assert(is_digit_char(s[0]));
        lemma_digit_char_plain(s[0]);
    }
    assert(spec_quote(s, 0) == SpecParse::<SpecQuote>::Failed(ParseErr::Mismatch));
    assert(spec_list(s, 0) == SpecParse::<Seq<SpecSexp>>::Failed(ParseErr::Mismatch));
    assert(spec_vector(s, 0) == SpecParse::<Seq<SpecSexp>>::Failed(ParseErr::Mismatch));
}

/// At the end of the input — in particular on empty input — every
/// expression parser fails with a plain mismatch: nothing is invented and
/// nothing is committed.
pub proof fn lemma_empty_fails(s: Seq<char>, i: int)
    requires
        0 <= i == s.len(),
    ensures
        spec_sexp(s, i) == SpecParse::<SpecSexp>::Failed(ParseErr::Mismatch),
        spec_quote(s, i) == SpecParse::<SpecQuote>::Failed(ParseErr::Mismatch),
        spec_list(s, i) == SpecParse::<Seq<SpecSexp>>::Failed(ParseErr::Mismatch),
        spec_vector(s, i) == SpecParse::<Seq<SpecSexp>>::Failed(ParseErr::Mismatch),
        spec_atom(s, i) == SpecParse::<SpecAtom>::Failed(ParseErr::Mismatch),
        spec_num(s, i) == SpecParse::<SpecNum>::Failed(ParseErr::Mismatch),
        spec_string(s, i) == SpecParse::<Seq<char>>::Failed(ParseErr::Mismatch),
        spec_symbol(s, i) == SpecParse::<Seq<char>>::Failed(ParseErr::Mismatch),
        spec_char(s, i) == SpecParse::<char>::Failed(ParseErr::Mismatch),
{
}

} // verus!

//! Symbolic-expression types, and the spec-level models they are viewed as.
//!
//! Every value is created by parsing and never mutated afterwards. A float
//! literal is kept exactly as its sign and its two digit runs, so no
//! precision is lost and the value stays within what can be reasoned about;
//! a consumer that wants a machine float converts outside this crate.
use vstd::prelude::*;

verus! {

/// A numeric literal: an exact 64-bit integer, or a decimal with a
/// fractional part, kept as its textual parts.
#[derive(Debug, PartialEq, Clone)]
pub enum Num {
    Int(i64),
    Float(Decimal),
}

/// The exact text of a float literal `-?whole.frac`: its sign and its two
/// (non-empty, all-digit) runs.
#[derive(Debug, PartialEq, Clone)]
pub struct Decimal {
    pub neg: bool,
    pub whole: String,
    pub frac: String,
}

/// An atomic value: a number, a character, a symbol, or a string literal.
#[derive(Debug, PartialEq, Clone)]
pub enum Atom {
    Num(Num),
    Char(char),
    Symbol(String),
    String(String),
}

/// A quoting form, each exclusively owning the expression it wraps.
/// `UnQuote` and `Splice` never wrap a bare atomic constant: the parser
/// rejects that at parse time.
#[derive(Debug, PartialEq)]
pub enum Quote {
    Quote(Box<Sexp>),
    Quasi(Box<Sexp>),
    UnQuote(Box<Sexp>),
    Splice(Box<Sexp>),
}

/// One parsed expression: the sole externally visible parse result.
#[derive(Debug, PartialEq)]
pub enum Sexp {
    Quote(Quote),
    Constant(Atom),
    List(Vec<Sexp>),
    Vector(Vec<Sexp>),
}

/// Spec-level model of `Num`.
pub enum SpecNum {
    Int(int),
    Float(SpecDecimal),
}

/// Spec-level model of `Decimal`.
pub struct SpecDecimal {
    pub neg: bool,
    pub whole: Seq<char>,
    pub frac: Seq<char>,
}

/// Spec-level model of `Atom`.
pub enum SpecAtom {
    Num(SpecNum),
    Char(char),
    Symbol(Seq<char>),
    Str(Seq<char>),
}

/// Spec-level model of `Quote`.
pub enum SpecQuote {
    Quote(Box<SpecSexp>),
    Quasi(Box<SpecSexp>),
    UnQuote(Box<SpecSexp>),
    Splice(Box<SpecSexp>),
}

/// Spec-level model of `Sexp`.
pub enum SpecSexp {
    Quote(SpecQuote),
    Constant(SpecAtom),
    List(Seq<SpecSexp>),
    Vector(Seq<SpecSexp>),
}

/// The model of a `Num`.
pub open spec fn num_view(n: Num) -> SpecNum {
    match n {
        Num::Int(v) => SpecNum::Int(v as int),
        Num::Float(d) => SpecNum::Float(SpecDecimal { neg: d.neg, whole: d.whole@, frac: d.frac@ }),
    }
}

/// The model of an `Atom`.
pub open spec fn atom_view(a: Atom) -> SpecAtom {
    match a {
        Atom::Num(n) => SpecAtom::Num(num_view(n)),
        Atom::Char(c) => SpecAtom::Char(c),
        Atom::Symbol(s) => SpecAtom::Symbol(s@),
        Atom::String(s) => SpecAtom::Str(s@),
    }
}

/// The model of a `Sexp`.
pub open spec fn sexp_view(e: Sexp) -> SpecSexp
    decreases e,
{
    match e {
        Sexp::Quote(q) => SpecSexp::Quote(quote_view(q)),
        Sexp::Constant(a) => SpecSexp::Constant(atom_view(a)),
        Sexp::List(v) => SpecSexp::List(sexp_seq_view(v@)),
        Sexp::Vector(v) => SpecSexp::Vector(sexp_seq_view(v@)),
    }
}

/// The model of a `Quote`.
pub open spec fn quote_view(q: Quote) -> SpecQuote
    decreases q,
{
    match q {
        Quote::Quote(b) => SpecQuote::Quote(Box::new(sexp_view(*b))),
        Quote::Quasi(b) => SpecQuote::Quasi(Box::new(sexp_view(*b))),
        Quote::UnQuote(b) => SpecQuote::UnQuote(Box::new(sexp_view(*b))),
        Quote::Splice(b) => SpecQuote::Splice(Box::new(sexp_view(*b))),
    }
}

/// The models of a sequence of expressions, element by element.
pub open spec fn sexp_seq_view(v: Seq<Sexp>) -> Seq<SpecSexp>
    decreases v,
{
    if v.len() == 0 {
        Seq::empty()
    } else {
        seq![sexp_view(v.first())] + sexp_seq_view(v.drop_first())
    }
}

impl View for Num {
    type V = SpecNum;

    open spec fn view(&self) -> SpecNum {
        num_view(*self)
    }
}

impl View for Atom {
    type V = SpecAtom;

    open spec fn view(&self) -> SpecAtom {
        atom_view(*self)
    }
}

impl View for Quote {
    type V = SpecQuote;

    open spec fn view(&self) -> SpecQuote {
        quote_view(*self)
    }
}

impl View for Sexp {
    type V = SpecSexp;

    open spec fn view(&self) -> SpecSexp {
        sexp_view(*self)
    }
}

/// `sexp_seq_view` is indeed element-by-element.
pub proof fn lemma_sexp_seq_view(v: Seq<Sexp>)
    ensures
        sexp_seq_view(v).len() == v.len(),
        forall|k: int| 0 <= k < v.len() ==> sexp_seq_view(v)[k] == sexp_view(v[k]),
    decreases v.len(),
{
    if v.len() > 0 {
        lemma_sexp_seq_view(v.drop_first());
    }
}

} // verus!

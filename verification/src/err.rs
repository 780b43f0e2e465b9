//! Parse outcomes: a recoverable mismatch, a recoverable unterminated
//! string, or a committed (fatal) failure that carries a context tag.
//!
//! Dispatchers that try grammar alternatives in order move on to the next
//! alternative on a recoverable error, and stop at once on a fatal one:
//! once a construct has been identified by its opening marker, a failure to
//! complete it must not be reinterpreted as a different alternative.
use vstd::prelude::*;

verus! {

/// The construct that a committed parse failed to complete.
#[derive(Debug, Clone, Copy, PartialEq, Eq, Structural)]
pub enum FatalKind {
    /// A list or vector was opened with `(` and never closed.
    ClosingParen,
    /// `,` was applied to a bare atomic constant.
    UnquoteLiteral,
    /// `@` was applied to a bare atomic constant.
    SpliceLiteral,
    /// `#\` was followed by an unrecognized multi-character name.
    CharName,
    /// A quoting marker was consumed but no expression followed it.
    QuotedExpr,
}

/// Why a parser did not produce a value.
#[derive(Debug, Clone, Copy, PartialEq, Eq, Structural)]
pub enum ParseErr {
    /// The alternative does not apply here; a dispatcher may try the next one.
    Mismatch,
    /// A string literal was opened with `"` and input ended before an
    /// unescaped closing quote. Recoverable, like `Mismatch`, but tagged.
    UnclosedString,
    /// A committed failure; no further alternatives may be tried.
    Fatal(FatalKind),
}

/// The spec-level outcome of running a parser at a position of the input:
/// either a value together with the position just past what was consumed,
/// or an error.
pub enum SpecParse<V> {
    Found(int, V),
    Failed(ParseErr),
}

impl FatalKind {
    /// The human-readable context tag of this failure.
    pub fn describe(&self) -> (r: String)
        ensures
            *self == FatalKind::ClosingParen ==> r@ == "closing paren"@,
            *self == FatalKind::UnquoteLiteral ==> r@ == "can't unquote literals"@,
            *self == FatalKind::SpliceLiteral ==> r@ == "can't splice literals"@,
            *self == FatalKind::CharName ==> r@ == "unknown character name"@,
            *self == FatalKind::QuotedExpr ==> r@ == "expected an expression after a quoting marker"@,
    {
        match self {
            FatalKind::ClosingParen => String::from_str("closing paren"),
            FatalKind::UnquoteLiteral => String::from_str("can't unquote literals"),
            FatalKind::SpliceLiteral => String::from_str("can't splice literals"),
            FatalKind::CharName => String::from_str("unknown character name"),
            FatalKind::QuotedExpr => String::from_str("expected an expression after a quoting marker"),
        }
    }
}

impl ParseErr {
    /// Whether this error commits the parse: dispatchers must not try
    /// further alternatives after it.
    pub fn is_fatal(&self) -> (r: bool)
        ensures
            r == (*self matches ParseErr::Fatal(_)),
    {
        match self {
            ParseErr::Fatal(_) => true,
            _ => false,
        }
    }

    /// The human-readable context tag of this error.
    pub fn describe(&self) -> (r: String)
        ensures
            *self == ParseErr::Mismatch ==> r@ == "no grammar alternative matched"@,
            *self == ParseErr::UnclosedString ==> r@ == "string missing closing \""@,
            *self matches ParseErr::Fatal(k) ==> r@ == k.describe_spec(),
    {
        match self {
            ParseErr::Mismatch => String::from_str("no grammar alternative matched"),
            ParseErr::UnclosedString => String::from_str("string missing closing \""),
            ParseErr::Fatal(k) => k.describe(),
        }
    }
}

impl FatalKind {
    /// The tag that `describe` returns, as a spec-level sequence.
    pub open spec fn describe_spec(&self) -> Seq<char> {
        match self {
            FatalKind::ClosingParen => "closing paren"@,
            FatalKind::UnquoteLiteral => "can't unquote literals"@,
            FatalKind::SpliceLiteral => "can't splice literals"@,
            FatalKind::CharName => "unknown character name"@,
            FatalKind::QuotedExpr => "expected an expression after a quoting marker"@,
        }
    }
}

} // verus!

//! Parsers for atomic values: numbers, string literals, symbols, and
//! character literals, plus the dispatcher that tries them in order.
//!
//! Each parser has a spec-level counterpart over `Seq<char>` that defines
//! exactly what it consumes and what it produces; the executable parser is
//! proved to agree with it on every input.
use vstd::prelude::*;

use crate::chars::{
    digit_run_end, is_digit_char, is_ws_char, lemma_digit_run_end, lemma_digit_run_end_is,
    lemma_name_run_end, lemma_pipe_run_end, lemma_sym_run_end, name_run_end, pipe_run_end,
    scan_digits, scan_name, scan_pipe, scan_sym, sym_run_end,
};
use crate::err::{FatalKind, ParseErr, SpecParse};
use crate::expr::{Atom, Decimal, Num, SpecAtom, SpecDecimal, SpecNum};

verus! {

/// The numeric value of one digit character.
pub open spec fn digit_val(c: char) -> int {
    c as int - '0' as int
}

/// The numeric value of a run of digit characters, most significant first.
pub open spec fn digits_val(s: Seq<char>) -> int
    decreases s.len(),
{
    if s.len() == 0 {
        0
    } else {
        digits_val(s.drop_last()) * 10 + digit_val(s.last())
    }
}

/// The value of a digit run is never negative.
pub proof fn lemma_digits_val_nonneg(s: Seq<char>)
    requires
        forall|k: int| 0 <= k < s.len() ==> is_digit_char(s[k]),
    ensures
        digits_val(s) >= 0,
    decreases s.len(),
{
    if s.len() > 0 {
        lemma_digits_val_nonneg(s.drop_last());
    }
}

/// Reading one more digit multiplies the value so far by ten and adds it.
pub proof fn lemma_digits_val_snoc(s: Seq<char>, from: int, j: int)
    requires
        0 <= from <= j < s.len(),
    ensures
        digits_val(s.subrange(from, j + 1)) == digits_val(s.subrange(from, j)) * 10 + digit_val(
            s[j],
        ),
{
    assert(s.subrange(from, j + 1).drop_last() =~= s.subrange(from, j));
    assert(s.subrange(from, j + 1).last() == s[j]);
}

/// Extending a digit run never shrinks its value.
pub proof fn lemma_digits_val_mono(s: Seq<char>, from: int, mid: int, to: int)
    requires
        0 <= from <= mid <= to <= s.len(),
        forall|k: int| from <= k < to ==> is_digit_char(s[k]),
    ensures
        digits_val(s.subrange(from, to)) >= digits_val(s.subrange(from, mid)),
    decreases to - mid,
{
    if mid < to {
        lemma_digits_val_mono(s, from, mid, to - 1);
        lemma_digits_val_snoc(s, from, to - 1);
        assert(forall|k: int| 0 <= k < s.subrange(from, to - 1).len() ==> is_digit_char(
            #[trigger] s.subrange(from, to - 1)[k],
        ));
        lemma_digits_val_nonneg(s.subrange(from, to - 1));
    }
}

/// What the numeric-literal parser does at position `i`: consume a maximal
/// `-?digit+(.digit+)?` prefix. A float needs digits on both sides of the
/// dot; an integer must fit in a signed 64-bit value, with the sign applied
/// after conversion, or the alternative does not match at all.
pub open spec fn spec_num(s: Seq<char>, i: int) -> SpecParse<SpecNum> {
    let neg = i < s.len() && s[i] == '-';
    let d0 = if neg {
        i + 1
    } else {
        i
    };
    let dend = digit_run_end(s, d0);
    if dend == d0 {
        SpecParse::Failed(ParseErr::Mismatch)
    } else if dend < s.len() && s[dend] == '.' && digit_run_end(s, dend + 1) > dend + 1 {
        let fend = digit_run_end(s, dend + 1);
        SpecParse::Found(
            fend,
            SpecNum::Float(
                SpecDecimal {
                    neg,
                    whole: s.subrange(d0, dend),
                    frac: s.subrange(dend + 1, fend),
                },
            ),
        )
    } else {
        let v = digits_val(s.subrange(d0, dend));
        if v <= i64::MAX {
            SpecParse::Found(
                dend,
                SpecNum::Int(
                    if neg {
                        -v
                    } else {
                        v
                    },
                ),
            )
        } else {
            SpecParse::Failed(ParseErr::Mismatch)
        }
    }
}

/// A successful number consumes at least one character and stays in bounds.
pub proof fn lemma_num_bounds(s: Seq<char>, i: int)
    requires
        0 <= i <= s.len(),
    ensures
        spec_num(s, i) matches SpecParse::Found(j, _) ==> i < j <= s.len(),
{
    let neg = i < s.len() && s[i] == '-';
    let d0 = if neg {
        i + 1
    } else {
        i
    };
    if d0 <= s.len() {
        lemma_digit_run_end(s, d0);
        let dend = digit_run_end(s, d0);
        if dend < s.len() {
            lemma_digit_run_end(s, dend + 1);
        }
    }
}

/// The value of a digit run, computed without overflow: `None` exactly when
/// the run's value exceeds `i64::MAX`.
fn digits_to_i64(s: &str, from: usize, to: usize) -> (r: Option<i64>)
    requires
        from <= to <= s@.len(),
        forall|k: int| from <= k < to ==> is_digit_char(s@[k]),
    ensures
        match r {
            Some(v) => 0 <= v && v as int == digits_val(s@.subrange(from as int, to as int)),
            None => digits_val(s@.subrange(from as int, to as int)) > i64::MAX,
        },
{
    let mut acc: i64 = 0;
    let mut j = from;
    proof {
        assert(s@.subrange(from as int, from as int) =~= Seq::<char>::empty());
    }
    while j < to
        invariant
            from <= j <= to <= s@.len(),
            forall|k: int| from <= k < to ==> is_digit_char(s@[k]),
            0 <= acc,
            acc as int == digits_val(s@.subrange(from as int, j as int)),
        decreases to - j,
    {
        let c = s.get_char(j);
        let d: i64 = (c as u32 - 48) as i64;
        proof {
            assert(is_digit_char(s@[j as int]));
            assert(d as int == digit_val(c));
            assert(0 <= d <= 9);
        }
        if acc > (i64::MAX - d) / 10 {
            proof {
                assert(acc * 10 + d > i64::MAX) by (nonlinear_arith)
                    requires
                        acc > (i64::MAX - d) / 10,
                        0 <= d <= 9,
                        acc >= 0,
                ;
                lemma_digits_val_snoc(s@, from as int, j as int);
                lemma_digits_val_mono(s@, from as int, j as int + 1, to as int);
            }
            return None;
        }
        proof {
            assert(acc * 10 + d <= i64::MAX) by (nonlinear_arith)
                requires
                    acc <= (i64::MAX - d) / 10,
                    0 <= d <= 9,
                    acc >= 0,
            ;
            assert(acc * 10 >= 0) by (nonlinear_arith)
                requires
                    acc >= 0,
            ;
            lemma_digits_val_snoc(s@, from as int, j as int);
        }
        acc = acc * 10 + d;
        j = j + 1;
    }
    Some(acc)
}

/// Parses a numeric literal at position `i`.
pub(crate) fn num_at(s: &str, i: usize) -> (r: Result<(usize, Num), ParseErr>)
    requires
        i <= s@.len(),
    ensures
        match spec_num(s@, i as int) {
            SpecParse::Found(j, v) => r matches Ok((jj, val)) && jj as int == j && val@ == v,
            SpecParse::Failed(e) => r matches Err(e2) && e2 == e,
        },
{
    let n = s.unicode_len();
    let neg = i < n && s.get_char(i) == '-';
    let d0 = if neg {
        i + 1
    } else {
        i
    };
    let dend = scan_digits(s, d0);
    if dend == d0 {
        return Err(ParseErr::Mismatch);
    }
    proof {
        lemma_digit_run_end(s@, d0 as int);
    }
    if dend < n && s.get_char(dend) == '.' {
        let fend = scan_digits(s, dend + 1);
        if fend > dend + 1 {
            let whole = s.substring_char(d0, dend).to_owned();
            let frac = s.substring_char(dend + 1, fend).to_owned();
            return Ok((fend, Num::Float(Decimal { neg, whole, frac })));
        }
    }
    match digits_to_i64(s, d0, dend) {
        Some(v) => Ok(
            (
                dend,
                Num::Int(
                    if neg {
                        -v
                    } else {
                        v
                    },
                ),
            ),
        ),
        None => Err(ParseErr::Mismatch),
    }
}

/// Prepends `pre` to the content of a successful string-body parse, and
/// leaves errors alone.
pub open spec fn with_prefix(pre: Seq<char>, r: SpecParse<Seq<char>>) -> SpecParse<Seq<char>> {
    match r {
        SpecParse::Found(j, t) => SpecParse::Found(j, pre + t),
        SpecParse::Failed(e) => SpecParse::Failed(e),
    }
}

proof fn lemma_with_prefix_empty(r: SpecParse<Seq<char>>)
    ensures
        with_prefix(Seq::empty(), r) == r,
{
    match r {
        SpecParse::Found(j, t) => {
            assert(Seq::empty() + t =~= t);
        },
        SpecParse::Failed(_) => {},
    }
}

proof fn lemma_with_prefix_assoc(a: Seq<char>, b: Seq<char>, r: SpecParse<Seq<char>>)
    ensures
        with_prefix(a, with_prefix(b, r)) == with_prefix(a + b, r),
{
    match r {
        SpecParse::Found(j, t) => {
            assert(a + (b + t) =~= (a + b) + t);
        },
        SpecParse::Failed(_) => {},
    }
}

/// What the string parser does from position `i`, just inside the opening
/// quote: a backslash suppresses the next character's meaning and passes it
/// through; an unescaped quote closes the literal; running out of input
/// before a closing quote is the unterminated-string error.
pub open spec fn spec_string_tail(s: Seq<char>, i: int) -> SpecParse<Seq<char>>
    decreases s.len() - i,
{
    if i >= s.len() {
        SpecParse::Failed(ParseErr::UnclosedString)
    } else if s[i] == '\\' {
        if i + 1 >= s.len() {
            SpecParse::Failed(ParseErr::UnclosedString)
        } else {
            with_prefix(seq![s[i + 1]], spec_string_tail(s, i + 2))
        }
    } else if s[i] == '"' {
        SpecParse::Found(i + 1, Seq::empty())
    } else {
        with_prefix(seq![s[i]], spec_string_tail(s, i + 1))
    }
}

/// What the string-literal parser does at position `i`: an opening `"`,
/// then the escaped body up to and including the closing `"`. The closing
/// quote is consumed but not part of the content.
pub open spec fn spec_string(s: Seq<char>, i: int) -> SpecParse<Seq<char>> {
    if i < s.len() && s[i] == '"' {
        spec_string_tail(s, i + 1)
    } else {
        SpecParse::Failed(ParseErr::Mismatch)
    }
}

proof fn lemma_string_tail_bounds(s: Seq<char>, i: int)
    requires
        0 <= i <= s.len(),
    ensures
        spec_string_tail(s, i) matches SpecParse::Found(j, _) ==> i < j <= s.len(),
    decreases s.len() - i,
{
    if i < s.len() && s[i] == '\\' {
        if i + 1 < s.len() {
            lemma_string_tail_bounds(s, i + 2);
        }
    } else if i < s.len() && s[i] != '"' {
        lemma_string_tail_bounds(s, i + 1);
    }
}

/// A successful string literal consumes at least one character and stays
/// in bounds.
pub proof fn lemma_string_bounds(s: Seq<char>, i: int)
    requires
        0 <= i <= s.len(),
    ensures
        spec_string(s, i) matches SpecParse::Found(j, _) ==> i < j <= s.len(),
{
    if i < s.len() && s[i] == '"' {
        lemma_string_tail_bounds(s, i + 1);
    }
}

/// Parses a string literal at position `i`.
pub(crate) fn string_at(s: &str, i: usize) -> (r: Result<(usize, String), ParseErr>)
    requires
        i <= s@.len(),
    ensures
        match spec_string(s@, i as int) {
            SpecParse::Found(j, t) => r matches Ok((jj, val)) && jj as int == j && val@ == t,
            SpecParse::Failed(e) => r matches Err(e2) && e2 == e,
        },
{
    let n = s.unicode_len();
    if i >= n || s.get_char(i) != '"' {
        return Err(ParseErr::Mismatch);
    }
    let mut acc = String::new();
    let mut cur = i + 1;
    proof {
        lemma_with_prefix_empty(spec_string_tail(s@, cur as int));
    }
    loop
        invariant
            i < n,
            n == s@.len(),
            s@[i as int] == '"',
            i + 1 <= cur <= n,
            spec_string(s@, i as int) == with_prefix(acc@, spec_string_tail(s@, cur as int)),
        decreases n - cur,
    {
        if cur >= n {
            return Err(ParseErr::UnclosedString);
        }
        let c = s.get_char(cur);
        if c == '\\' {
            if cur + 1 >= n {
                return Err(ParseErr::UnclosedString);
            }
            proof {
                lemma_with_prefix_assoc(
                    acc@,
                    seq![s@[cur as int + 1]],
                    spec_string_tail(s@, cur as int + 2),
                );
                assert(s@.subrange(cur as int + 1, cur as int + 2) =~= seq![s@[cur as int + 1]]);
            }
            acc.append(s.substring_char(cur + 1, cur + 2));
            cur = cur + 2;
        } else if c == '"' {
            proof {
                assert(acc@ + Seq::<char>::empty() =~= acc@);
            }
            return Ok((cur + 1, acc));
        } else {
            proof {
                lemma_with_prefix_assoc(
                    acc@,
                    seq![s@[cur as int]],
                    spec_string_tail(s@, cur as int + 1),
                );
                assert(s@.subrange(cur as int, cur as int + 1) =~= seq![s@[cur as int]]);
            }
            acc.append(s.substring_char(cur, cur + 1));
            cur = cur + 1;
        }
    }
}

/// What the bare-token symbol rule does at position `i`: a maximal
/// non-empty run of symbol characters, returned verbatim.
pub open spec fn spec_bare_symbol(s: Seq<char>, i: int) -> SpecParse<Seq<char>> {
    let k = sym_run_end(s, i);
    if k > i {
        SpecParse::Found(k, s.subrange(i, k))
    } else {
        SpecParse::Failed(ParseErr::Mismatch)
    }
}

/// What the symbol parser does at position `i`: a pipe-delimited form
/// `|...|` whose non-empty interior is returned verbatim, or, when that
/// form does not apply (no interior, or no closing pipe), the bare-token
/// rule — so a lone `|` becomes an ordinary token character.
pub open spec fn spec_symbol(s: Seq<char>, i: int) -> SpecParse<Seq<char>> {
    if i < s.len() && s[i] == '|' {
        let j = pipe_run_end(s, i + 1);
        if j > i + 1 && j < s.len() {
            SpecParse::Found(j + 1, s.subrange(i + 1, j))
        } else {
            spec_bare_symbol(s, i)
        }
    } else {
        spec_bare_symbol(s, i)
    }
}

/// A successful symbol consumes at least one character and stays in
/// bounds.
pub proof fn lemma_symbol_bounds(s: Seq<char>, i: int)
    requires
        0 <= i <= s.len(),
    ensures
        spec_symbol(s, i) matches SpecParse::Found(j, _) ==> i < j <= s.len(),
{
    lemma_sym_run_end(s, i);
    if i < s.len() {
        lemma_pipe_run_end(s, i + 1);
    }
}

/// Parses a symbol at position `i`.
pub(crate) fn symbol_at(s: &str, i: usize) -> (r: Result<(usize, String), ParseErr>)
    requires
        i <= s@.len(),
    ensures
        match spec_symbol(s@, i as int) {
            SpecParse::Found(j, t) => r matches Ok((jj, val)) && jj as int == j && val@ == t,
            SpecParse::Failed(e) => r matches Err(e2) && e2 == e,
        },
{
    let n = s.unicode_len();
    if i < n && s.get_char(i) == '|' {
        let j = scan_pipe(s, i + 1);
        if j > i + 1 && j < n {
            return Ok((j + 1, s.substring_char(i + 1, j).to_owned()));
        }
    }
    let k = scan_sym(s, i);
    if k > i {
        Ok((k, s.substring_char(i, k).to_owned()))
    } else {
        Err(ParseErr::Mismatch)
    }
}

/// The fixed table of named character literals: the ASCII C0 control
/// mnemonics with their common aliases, plus space and delete. Unknown
/// multi-character names map to nothing, which the parser reports as a
/// committed failure.
pub open spec fn char_name_lookup(name: Seq<char>) -> Option<char> {
    if name == "nul"@ {
        Some('\x00')
    } else if name == "soh"@ {
        Some('\x01')
    } else if name == "stx"@ {
        Some('\x02')
    } else if name == "etx"@ {
        Some('\x03')
    } else if name == "eot"@ {
        Some('\x04')
    } else if name == "enq"@ {
        Some('\x05')
    } else if name == "ack"@ {
        Some('\x06')
    } else if name == "bel"@ {
        Some('\x07')
    } else if name == "alarm"@ {
        Some('\x07')
    } else if name == "bs"@ {
        Some('\x08')
    } else if name == "backspace"@ {
        Some('\x08')
    } else if name == "ht"@ {
        Some('\x09')
    } else if name == "tab"@ {
        Some('\x09')
    } else if name == "lf"@ {
        Some('\x0a')
    } else if name == "linefeed"@ {
        Some('\x0a')
    } else if name == "newline"@ {
        Some('\x0a')
    } else if name == "vt"@ {
        Some('\x0b')
    } else if name == "vtab"@ {
        Some('\x0b')
    } else if name == "ff"@ {
        Some('\x0c')
    } else if name == "page"@ {
        Some('\x0c')
    } else if name == "cr"@ {
        Some('\x0d')
    } else if name == "return"@ {
        Some('\x0d')
    } else if name == "so"@ {
        Some('\x0e')
    } else if name == "si"@ {
        Some('\x0f')
    } else if name == "dle"@ {
        Some('\x10')
    } else if name == "dc1"@ {
        Some('\x11')
    } else if name == "dc2"@ {
        Some('\x12')
    } else if name == "dc3"@ {
        Some('\x13')
    } else if name == "dc4"@ {
        Some('\x14')
    } else if name == "nak"@ {
        Some('\x15')
    } else if name == "syn"@ {
        Some('\x16')
    } else if name == "etb"@ {
        Some('\x17')
    } else if name == "can"@ {
        Some('\x18')
    } else if name == "em"@ {
        Some('\x19')
    } else if name == "sub"@ {
        Some('\x1a')
    } else if name == "esc"@ {
        Some('\x1b')
    } else if name == "escape"@ {
        Some('\x1b')
    } else if name == "fs"@ {
        Some('\x1c')
    } else if name == "gs"@ {
        Some('\x1d')
    } else if name == "rs"@ {
        Some('\x1e')
    } else if name == "us"@ {
        Some('\x1f')
    } else if name == "sp"@ {
        Some(' ')
    } else if name == "space"@ {
        Some(' ')
    } else if name == "delete"@ {
        Some('\x7f')
    } else {
        None
    }
}

/// What the token after `#\` resolves to: one character stands for
/// itself, a longer run is looked up in the name table.
pub open spec fn spec_process_char(name: Seq<char>) -> Option<char> {
    if name.len() == 1 {
        Some(name[0])
    } else {
        char_name_lookup(name)
    }
}

/// Whether two strings hold the same characters.
fn str_eq(a: &str, b: &str) -> (r: bool)
    ensures
        r == (a@ == b@),
{
    let an = a.unicode_len();
    let bn = b.unicode_len();
    if an != bn {
        return false;
    }
    let mut k: usize = 0;
    while k < an
        invariant
            k <= an,
            an == a@.len(),
            bn == b@.len(),
            an == bn,
            forall|m: int| 0 <= m < k ==> a@[m] == b@[m],
        decreases an - k,
    {
        if a.get_char(k) != b.get_char(k) {
            return false;
        }
        k = k + 1;
    }
    proof {
        assert(a@ =~= b@);
    }
    true
}

/// Resolves the token that followed `#\\`: a single character stands for
/// itself; a longer run must name a character in the fixed table, and
/// `None` reports a run that names none.
pub fn process_char(name: &str) -> (r: Option<char>)
    ensures
        r == spec_process_char(name@),
{
    let n = name.unicode_len();
    if n == 1 {
        return Some(name.get_char(0));
    }
    if str_eq(name, "nul") {
        return Some('\x00');
    }
    if str_eq(name, "soh") {
        return Some('\x01');
    }
    if str_eq(name, "stx") {
        return Some('\x02');
    }
    if str_eq(name, "etx") {
        return Some('\x03');
    }
    if str_eq(name, "eot") {
        return Some('\x04');
    }
    if str_eq(name, "enq") {
        return Some('\x05');
    }
    if str_eq(name, "ack") {
        return Some('\x06');
    }
    if str_eq(name, "bel") {
        return Some('\x07');
    }
    if str_eq(name, "alarm") {
        return Some('\x07');
    }
    if str_eq(name, "bs") {
        return Some('\x08');
    }
    if str_eq(name, "backspace") {
        return Some('\x08');
    }
    if str_eq(name, "ht") {
        return Some('\x09');
    }
    if str_eq(name, "tab") {
        return Some('\x09');
    }
    if str_eq(name, "lf") {
        return Some('\x0a');
    }
    if str_eq(name, "linefeed") {
        return Some('\x0a');
    }
    if str_eq(name, "newline") {
        return Some('\x0a');
    }
    if str_eq(name, "vt") {
        return Some('\x0b');
    }
    if str_eq(name, "vtab") {
        return Some('\x0b');
    }
    if str_eq(name, "ff") {
        return Some('\x0c');
    }
    if str_eq(name, "page") {
        return Some('\x0c');
    }
    if str_eq(name, "cr") {
        return Some('\x0d');
    }
    if str_eq(name, "return") {
        return Some('\x0d');
    }
    if str_eq(name, "so") {
        return Some('\x0e');
    }
    if str_eq(name, "si") {
        return Some('\x0f');
    }
    if str_eq(name, "dle") {
        return Some('\x10');
    }
    if str_eq(name, "dc1") {
        return Some('\x11');
    }
    if str_eq(name, "dc2") {
        return Some('\x12');
    }
    if str_eq(name, "dc3") {
        return Some('\x13');
    }
    if str_eq(name, "dc4") {
        return Some('\x14');
    }
    if str_eq(name, "nak") {
        return Some('\x15');
    }
    if str_eq(name, "syn") {
        return Some('\x16');
    }
    if str_eq(name, "etb") {
        return Some('\x17');
    }
    if str_eq(name, "can") {
        return Some('\x18');
    }
    if str_eq(name, "em") {
        return Some('\x19');
    }
    if str_eq(name, "sub") {
        return Some('\x1a');
    }
    if str_eq(name, "esc") {
        return Some('\x1b');
    }
    if str_eq(name, "escape") {
        return Some('\x1b');
    }
    if str_eq(name, "fs") {
        return Some('\x1c');
    }
    if str_eq(name, "gs") {
        return Some('\x1d');
    }
    if str_eq(name, "rs") {
        return Some('\x1e');
    }
    if str_eq(name, "us") {
        return Some('\x1f');
    }
    if str_eq(name, "sp") {
        return Some(' ');
    }
    if str_eq(name, "space") {
        return Some(' ');
    }
    if str_eq(name, "delete") {
        return Some('\x7f');
    }
    None
}

/// What the character-literal parser does at position `i`: `#\` followed
/// by a maximal non-empty run of non-whitespace characters. One character
/// stands for itself; a longer run must be a known name, and an unknown
/// name is a committed failure, not a silent mismatch.
pub open spec fn spec_char(s: Seq<char>, i: int) -> SpecParse<char> {
    if i + 1 < s.len() && s[i] == '#' && s[i + 1] == '\\' {
        let k = name_run_end(s, i + 2);
        if k == i + 2 {
            SpecParse::Failed(ParseErr::Mismatch)
        } else {
            match spec_process_char(s.subrange(i + 2, k)) {
                Some(c) => SpecParse::Found(k, c),
                None => SpecParse::Failed(ParseErr::Fatal(FatalKind::CharName)),
            }
        }
    } else {
        SpecParse::Failed(ParseErr::Mismatch)
    }
}

/// A successful character literal consumes at least one character and
/// stays in bounds.
pub proof fn lemma_char_bounds(s: Seq<char>, i: int)
    requires
        0 <= i <= s.len(),
    ensures
        spec_char(s, i) matches SpecParse::Found(j, _) ==> i < j <= s.len(),
{
    if i + 1 < s.len() {
        lemma_name_run_end(s, i + 2);
    }
}

/// Parses a character literal at position `i`.
pub(crate) fn char_at(s: &str, i: usize) -> (r: Result<(usize, char), ParseErr>)
    requires
        i <= s@.len(),
    ensures
        match spec_char(s@, i as int) {
            SpecParse::Found(j, c) => r matches Ok((jj, cc)) && jj as int == j && cc == c,
            SpecParse::Failed(e) => r matches Err(e2) && e2 == e,
        },
{
    let n = s.unicode_len();
    if i < n && s.get_char(i) == '#' && i + 1 < n && s.get_char(i + 1) == '\\' {
        let k = scan_name(s, i + 2);
        if k == i + 2 {
            return Err(ParseErr::Mismatch);
        }
        match process_char(s.substring_char(i + 2, k)) {
            Some(c) => Ok((k, c)),
            None => Err(ParseErr::Fatal(FatalKind::CharName)),
        }
    } else {
        Err(ParseErr::Mismatch)
    }
}

/// What the atom dispatcher does at position `i`: try number, character,
/// string, symbol, in that order. The narrow unambiguous prefixes come
/// first; the maximally permissive symbol rule comes last, so a mismatch
/// of an earlier rule falls through to it. A committed failure of the
/// character rule is final.
pub open spec fn spec_atom(s: Seq<char>, i: int) -> SpecParse<SpecAtom> {
    match spec_num(s, i) {
        SpecParse::Found(j, v) => SpecParse::Found(j, SpecAtom::Num(v)),
        SpecParse::Failed(_) => match spec_char(s, i) {
            SpecParse::Found(j, c) => SpecParse::Found(j, SpecAtom::Char(c)),
            SpecParse::Failed(e2) => if e2 matches ParseErr::Fatal(_) {
                SpecParse::Failed(e2)
            } else {
                match spec_string(s, i) {
                    SpecParse::Found(j, t) => SpecParse::Found(j, SpecAtom::Str(t)),
                    SpecParse::Failed(_) => match spec_symbol(s, i) {
                        SpecParse::Found(j, t) => SpecParse::Found(j, SpecAtom::Symbol(t)),
                        SpecParse::Failed(e4) => SpecParse::Failed(e4),
                    },
                }
            },
        },
    }
}

/// A successful atom consumes at least one character and stays in bounds.
pub proof fn lemma_atom_bounds(s: Seq<char>, i: int)
    requires
        0 <= i <= s.len(),
    ensures
        spec_atom(s, i) matches SpecParse::Found(j, _) ==> i < j <= s.len(),
{
    lemma_num_bounds(s, i);
    lemma_char_bounds(s, i);
    lemma_string_bounds(s, i);
    lemma_symbol_bounds(s, i);
}

/// Parses one atom at position `i`.
pub(crate) fn atom_at(s: &str, i: usize) -> (r: Result<(usize, Atom), ParseErr>)
    requires
        i <= s@.len(),
    ensures
        match spec_atom(s@, i as int) {
            SpecParse::Found(j, v) => r matches Ok((jj, val)) && jj as int == j && val@ == v,
            SpecParse::Failed(e) => r matches Err(e2) && e2 == e,
        },
{
    match num_at(s, i) {
        Ok((j, v)) => {
            return Ok((j, Atom::Num(v)));
        },
        Err(_) => {},
    }
    match char_at(s, i) {
        Ok((j, c)) => {
            return Ok((j, Atom::Char(c)));
        },
        Err(e2) => {
            if e2.is_fatal() {
                return Err(e2);
            }
        },
    }
    match string_at(s, i) {
        Ok((j, t)) => {
            return Ok((j, Atom::String(t)));
        },
        Err(_) => {},
    }
    match symbol_at(s, i) {
        Ok((j, t)) => Ok((j, Atom::Symbol(t))),
        Err(e4) => Err(e4),
    }
}

/// Parses a numeric literal from the start of `i`, returning the value and
/// the unconsumed remainder.
pub fn num<'a>(i: &'a str) -> (r: Result<(&'a str, Num), ParseErr>)
    ensures
        match spec_num(i@, 0) {
            SpecParse::Found(j, v) => r matches Ok((rem, val)) && val@ == v && rem@ == i@.subrange(
                j,
                i@.len() as int,
            ),
            SpecParse::Failed(e) => r matches Err(e2) && e2 == e,
        },
{
    let n = i.unicode_len();
    match num_at(i, 0) {
        Ok((j, v)) => {
            proof {
                lemma_num_bounds(i@, 0);
            }
            Ok((i.substring_char(j, n), v))
        },
        Err(e) => Err(e),
    }
}

/// Parses a string literal from the start of `i`, returning its unescaped
/// content and the unconsumed remainder.
pub fn string<'a>(i: &'a str) -> (r: Result<(&'a str, String), ParseErr>)
    ensures
        match spec_string(i@, 0) {
            SpecParse::Found(j, t) => r matches Ok((rem, val)) && val@ == t && rem@ == i@.subrange(
                j,
                i@.len() as int,
            ),
            SpecParse::Failed(e) => r matches Err(e2) && e2 == e,
        },
{
    let n = i.unicode_len();
    match string_at(i, 0) {
        Ok((j, t)) => {
            proof {
                lemma_string_bounds(i@, 0);
            }
            Ok((i.substring_char(j, n), t))
        },
        Err(e) => Err(e),
    }
}

/// Parses a symbol from the start of `i`, returning its text and the
/// unconsumed remainder.
pub fn symbol<'a>(i: &'a str) -> (r: Result<(&'a str, String), ParseErr>)
    ensures
        match spec_symbol(i@, 0) {
            SpecParse::Found(j, t) => r matches Ok((rem, val)) && val@ == t && rem@ == i@.subrange(
                j,
                i@.len() as int,
            ),
            SpecParse::Failed(e) => r matches Err(e2) && e2 == e,
        },
{
    let n = i.unicode_len();
    match symbol_at(i, 0) {
        Ok((j, t)) => {
            proof {
                lemma_symbol_bounds(i@, 0);
            }
            Ok((i.substring_char(j, n), t))
        },
        Err(e) => Err(e),
    }
}

/// Parses a character literal from the start of `i`, returning the
/// character and the unconsumed remainder.
pub fn lit_char<'a>(i: &'a str) -> (r: Result<(&'a str, char), ParseErr>)
    ensures
        match spec_char(i@, 0) {
            SpecParse::Found(j, c) => r matches Ok((rem, cc)) && cc == c && rem@ == i@.subrange(
                j,
                i@.len() as int,
            ),
            SpecParse::Failed(e) => r matches Err(e2) && e2 == e,
        },
{
    let n = i.unicode_len();
    match char_at(i, 0) {
        Ok((j, c)) => {
            proof {
                lemma_char_bounds(i@, 0);
            }
            Ok((i.substring_char(j, n), c))
        },
        Err(e) => Err(e),
    }
}

/// Parses one atom from the start of `i`, returning the value and the
/// unconsumed remainder.
pub fn atom<'a>(i: &'a str) -> (r: Result<(&'a str, Atom), ParseErr>)
    ensures
        match spec_atom(i@, 0) {
            SpecParse::Found(j, v) => r matches Ok((rem, val)) && val@ == v && rem@ == i@.subrange(
                j,
                i@.len() as int,
            ),
            SpecParse::Failed(e) => r matches Err(e2) && e2 == e,
        },
{
    let n = i.unicode_len();
    match atom_at(i, 0) {
        Ok((j, v)) => {
            proof {
                lemma_atom_bounds(i@, 0);
            }
            Ok((i.substring_char(j, n), v))
        },
        Err(e) => Err(e),
    }
}

/// The digit character of one decimal digit value.
pub open spec fn digit_char(d: int) -> char {
    if d == 0 {
        '0'
    } else if d == 1 {
        '1'
    } else if d == 2 {
        '2'
    } else if d == 3 {
        '3'
    } else if d == 4 {
        '4'
    } else if d == 5 {
        '5'
    } else if d == 6 {
        '6'
    } else if d == 7 {
        '7'
    } else if d == 8 {
        '8'
    } else {
        '9'
    }
}

/// The decimal digits of a non-negative integer, most significant first,
/// without leading zeros (a single zero for zero itself).
pub open spec fn int_digits(n: int) -> Seq<char>
    decreases n,
{
    if n < 10 {
        seq![digit_char(n)]
    } else {
        int_digits(n / 10).push(digit_char(n % 10))
    }
}

/// The decimal text of an integer: a minus sign for a negative one, then
/// its digits.
pub open spec fn int_text(n: int) -> Seq<char> {
    if n < 0 {
        seq!['-'] + int_digits(-n)
    } else {
        int_digits(n)
    }
}

/// The decimal digits of `n` spell `n`: they are non-empty, all digits,
/// and their value is `n` again.
pub proof fn lemma_int_digits_props(n: int)
    requires
        n >= 0,
    ensures
        int_digits(n).len() >= 1,
        forall|k: int| 0 <= k < int_digits(n).len() ==> is_digit_char(int_digits(n)[k]),
        digits_val(int_digits(n)) == n,
    decreases n,
{
    if n < 10 {
        assert(int_digits(n) =~= seq![digit_char(n)]);
        assert(digits_val(seq![digit_char(n)].drop_last()) == 0) by {
            assert(seq![digit_char(n)].drop_last() =~= Seq::<char>::empty());
        }
    } else {
        lemma_int_digits_props(n / 10);
        let pre = int_digits(n / 10);
        let c = digit_char(n % 10);
        assert(int_digits(n) == pre.push(c));
        assert(pre.push(c).drop_last() =~= pre);
        assert(pre.push(c).last() == c);
        assert(digits_val(int_digits(n)) == digits_val(pre) * 10 + digit_val(c));
        assert(digit_val(c) == n % 10);
        assert((n / 10) * 10 + n % 10 == n);
    }
}

/// A digit character opens no other grammar form: it is none of the
/// quoting markers, delimiters, or signs.
pub proof fn lemma_digit_char_plain(c: char)
    requires
        is_digit_char(c),
    ensures
        c != '\'' && c != '`' && c != ',' && c != '@' && c != '(' && c != ')' && c != '#' && c
            != '-' && c != '.' && c != '"' && c != '|' && !is_ws_char(c),
{
}

/// Parsing the decimal text of an integer with the numeric-literal rule
/// yields exactly that integer and consumes the whole text.
pub proof fn lemma_num_int_text(n: int)
    requires
        i64::MIN < n <= i64::MAX,
    ensures
        spec_num(int_text(n), 0) == SpecParse::Found(
            int_text(n).len() as int,
            SpecNum::Int(n),
        ),
        int_text(n).len() >= 1,
        int_text(n)[0] == '-' || is_digit_char(int_text(n)[0]),
{
    let s = int_text(n);
    if n < 0 {
        lemma_int_digits_props(-n);
        let digits = int_digits(-n);
        assert(s == seq!['-'] + digits);
        assert(s[0] == '-');
        assert(s.len() == 1 + digits.len());
        assert(forall|k: int| 1 <= k < s.len() ==> is_digit_char(#[trigger] s[k]));
        lemma_digit_run_end_is(s, 1, s.len() as int);
        assert(s.subrange(1, s.len() as int) =~= digits);
        assert(digits_val(digits) == -n);
    } else {
        lemma_int_digits_props(n);
        assert(s == int_digits(n));
        assert(is_digit_char(s[0]));
        assert(s[0] != '-');
        lemma_digit_run_end_is(s, 0, s.len() as int);
        assert(s.subrange(0, s.len() as int) =~= s);
    }
}

/// The decimal text of a float literal: an optional minus sign, the whole
/// part, a dot, the fractional part.
pub open spec fn float_text(neg: bool, whole: Seq<char>, frac: Seq<char>) -> Seq<char> {
    (if neg {
        seq!['-']
    } else {
        Seq::empty()
    }) + whole + seq!['.'] + frac
}

/// Parsing the decimal text of a float literal with the numeric-literal
/// rule yields exactly its sign and digit runs and consumes the whole
/// text.
pub proof fn lemma_num_float_text(neg: bool, whole: Seq<char>, frac: Seq<char>)
    requires
        whole.len() >= 1,
        frac.len() >= 1,
        forall|k: int| 0 <= k < whole.len() ==> is_digit_char(whole[k]),
        forall|k: int| 0 <= k < frac.len() ==> is_digit_char(frac[k]),
    ensures
        spec_num(float_text(neg, whole, frac), 0) == SpecParse::Found(
            float_text(neg, whole, frac).len() as int,
            SpecNum::Float(SpecDecimal { neg, whole, frac }),
        ),
        float_text(neg, whole, frac).len() >= 1,
        float_text(neg, whole, frac)[0] == '-' || is_digit_char(float_text(neg, whole, frac)[0]),
{
    let s = float_text(neg, whole, frac);
    let d0: int = if neg {
        1
    } else {
        0
    };
    let dend = d0 + whole.len();
    assert(s.len() == d0 + whole.len() + 1 + frac.len());
    assert(forall|k: int| d0 <= k < dend ==> is_digit_char(#[trigger] s[k]));
    assert(s[dend] == '.');
    lemma_digit_run_end_is(s, d0, dend);
    assert(forall|k: int| dend + 1 <= k < s.len() ==> is_digit_char(#[trigger] s[k]));
    lemma_digit_run_end_is(s, dend + 1, s.len() as int);
    assert(s.subrange(d0, dend) =~= whole);
    assert(s.subrange(dend + 1, s.len() as int) =~= frac);
    if neg {
        assert(s[0] == '-');
    } else {
        assert(is_digit_char(s[0]));
        assert(s[0] != '-');
    }
}

/// The text that spells `t` inside a string literal: a backslash is put
/// before every quote and every backslash, and all other characters stand
/// as they are.
pub open spec fn escape_content(t: Seq<char>) -> Seq<char>
    decreases t.len(),
{
    if t.len() == 0 {
        Seq::empty()
    } else {
        (if t.first() == '"' || t.first() == '\\' {
            seq!['\\', t.first()]
        } else {
            seq![t.first()]
        }) + escape_content(t.drop_first())
    }
}

proof fn lemma_string_tail_escaped(s: Seq<char>, i: int, t: Seq<char>)
    requires
        0 <= i,
        i + escape_content(t).len() + 1 <= s.len(),
        s.subrange(i, i + escape_content(t).len() + 1) == escape_content(t) + seq!['"'],
    ensures
        spec_string_tail(s, i) == SpecParse::<Seq<char>>::Found(
            i + escape_content(t).len() + 1,
            t,
        ),
    decreases t.len(),
{
    let e = escape_content(t);
    let part = s.subrange(i, i + e.len() + 1);
    if t.len() == 0 {
        assert(s[i] == part[0]);
        assert(s[i] == '"');
        assert(t =~= Seq::<char>::empty());
    } else {
        let c = t.first();
        let t2 = t.drop_first();
        let e2 = escape_content(t2);
        if c == '"' || c == '\\' {
            assert(e == seq!['\\', c] + e2);
            assert(s[i] == part[0] && s[i + 1] == part[1]);
            assert(s[i] == '\\' && s[i + 1] == c);
            assert(s.subrange(i + 2, i + 2 + e2.len() + 1) =~= e2 + seq!['"']) by {
                assert(forall|k: int| 0 <= k < e2.len() + 1 ==> #[trigger] s.subrange(
                    i + 2,
                    i + 2 + e2.len() as int + 1,
                )[k] == part[k + 2]);
            }
            lemma_string_tail_escaped(s, i + 2, t2);
            assert(seq![c] + t2 =~= t);
        } else {
            assert(e == seq![c] + e2);
            assert(s[i] == part[0]);
            assert(s[i] == c);
            assert(s.subrange(i + 1, i + 1 + e2.len() + 1) =~= e2 + seq!['"']) by {
                assert(forall|k: int| 0 <= k < e2.len() + 1 ==> #[trigger] s.subrange(
                    i + 1,
                    i + 1 + e2.len() as int + 1,
                )[k] == part[k + 1]);
            }
            lemma_string_tail_escaped(s, i + 1, t2);
            assert(seq![c] + t2 =~= t);
        }
    }
}

/// The string literal round trip: for any content whatsoever, writing it
/// between quotes with every quote and backslash escaped and parsing the
/// result yields the content verbatim, with the whole text consumed.
pub proof fn lemma_string_round_trip(t: Seq<char>)
    ensures
        spec_string(seq!['"'] + escape_content(t) + seq!['"'], 0) == SpecParse::<
            Seq<char>,
        >::Found((seq!['"'] + escape_content(t) + seq!['"']).len() as int, t),
{
    let s = seq!['"'] + escape_content(t) + seq!['"'];
    let e = escape_content(t);
    assert(s[0] == '"');
    assert(s.subrange(1, 1 + e.len() as int + 1) =~= e + seq!['"']);
    lemma_string_tail_escaped(s, 1, t);
}

/// Whether `s` is exactly the text of an integer literal: an optional
/// minus sign followed by one or more digits and nothing else.
pub open spec fn is_int_text(s: Seq<char>) -> bool {
    let d0: int = if s.len() > 0 && s[0] == '-' {
        1
    } else {
        0
    };
    s.len() > d0 && (forall|k: int| d0 <= k < s.len() ==> is_digit_char(s[k]))
}

/// The numeric-literal rule never yields a float on integer-only text:
/// with no dot to find, a digit run either is an integer or does not
/// match at all.
pub proof fn lemma_num_int_text_not_float(s: Seq<char>)
    requires
        is_int_text(s),
    ensures
        spec_num(s, 0) matches SpecParse::Found(j, v) ==> j == s.len() && (v matches SpecNum::Int(
            _,
        )),
{
    let d0: int = if s.len() > 0 && s[0] == '-' {
        1
    } else {
        0
    };
    lemma_digit_run_end_is(s, d0, s.len() as int);
    if d0 == 0 && s.len() > 0 {
        assert(is_digit_char(s[0]));
    }
}

} // verus!

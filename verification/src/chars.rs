//! Character classes of the grammar, and maximal-run scanners over them.
//!
//! Every lexical rule of the grammar is a maximal run of characters drawn
//! from one class, so each class gets a spec-level "end of run" function, a
//! characterization lemma, and an executable scanner proved against it.
use vstd::prelude::*;

verus! {

/// Whitespace: the characters that separate list elements and terminate
/// bare tokens.
pub open spec fn is_ws_char(c: char) -> bool {
    c == ' ' || c == '\t' || c == '\r' || c == '\n'
}

/// A decimal digit.
pub open spec fn is_digit_char(c: char) -> bool {
    '0' <= c && c <= '9'
}

/// A character that may stand in a bare symbol token: anything but
/// whitespace and the list delimiters.
pub open spec fn is_symbol_char(c: char) -> bool {
    !is_ws_char(c) && c != '(' && c != ')'
}

/// First position at or after `i` that does not hold whitespace.
pub open spec fn ws_run_end(s: Seq<char>, i: int) -> int
    decreases s.len() - i,
{
    if i < s.len() && is_ws_char(s[i]) {
        ws_run_end(s, i + 1)
    } else {
        i
    }
}

/// First position at or after `i` that does not hold a digit.
pub open spec fn digit_run_end(s: Seq<char>, i: int) -> int
    decreases s.len() - i,
{
    if i < s.len() && is_digit_char(s[i]) {
        digit_run_end(s, i + 1)
    } else {
        i
    }
}

/// First position at or after `i` that does not hold a symbol character.
pub open spec fn sym_run_end(s: Seq<char>, i: int) -> int
    decreases s.len() - i,
{
    if i < s.len() && is_symbol_char(s[i]) {
        sym_run_end(s, i + 1)
    } else {
        i
    }
}

/// First position at or after `i` that holds `|` (or the end of input):
/// the extent of a pipe-delimited symbol's interior.
pub open spec fn pipe_run_end(s: Seq<char>, i: int) -> int
    decreases s.len() - i,
{
    if i < s.len() && s[i] != '|' {
        pipe_run_end(s, i + 1)
    } else {
        i
    }
}

/// First position at or after `i` that holds whitespace (or the end of
/// input): the extent of a character literal's name.
pub open spec fn name_run_end(s: Seq<char>, i: int) -> int
    decreases s.len() - i,
{
    if i < s.len() && !is_ws_char(s[i]) {
        name_run_end(s, i + 1)
    } else {
        i
    }
}

/// What `ws_run_end` marks off: a maximal run of whitespace.
pub proof fn lemma_ws_run_end(s: Seq<char>, i: int)
    requires
        0 <= i <= s.len(),
    ensures
        i <= ws_run_end(s, i) <= s.len(),
        forall|k: int| i <= k < ws_run_end(s, i) ==> is_ws_char(s[k]),
        ws_run_end(s, i) < s.len() ==> !is_ws_char(s[ws_run_end(s, i)]),
    decreases s.len() - i,
{
    if i < s.len() && is_ws_char(s[i]) {
        lemma_ws_run_end(s, i + 1);
    }
}

/// What `digit_run_end` marks off: a maximal run of digits.
pub proof fn lemma_digit_run_end(s: Seq<char>, i: int)
    requires
        0 <= i <= s.len(),
    ensures
        i <= digit_run_end(s, i) <= s.len(),
        forall|k: int| i <= k < digit_run_end(s, i) ==> is_digit_char(s[k]),
        digit_run_end(s, i) < s.len() ==> !is_digit_char(s[digit_run_end(s, i)]),
    decreases s.len() - i,
{
    if i < s.len() && is_digit_char(s[i]) {
        lemma_digit_run_end(s, i + 1);
    }
}

/// A maximal digit run is determined by its characters: if everything in
/// `[i, cur)` is a digit and `cur` is the end of input or not a digit, the
/// run ends exactly at `cur`.
pub proof fn lemma_digit_run_end_is(s: Seq<char>, i: int, cur: int)
    requires
        0 <= i <= cur <= s.len(),
        forall|k: int| i <= k < cur ==> is_digit_char(s[k]),
        cur < s.len() ==> !is_digit_char(s[cur]),
    ensures
        digit_run_end(s, i) == cur,
    decreases cur - i,
{
    if i < cur {
        lemma_digit_run_end_is(s, i + 1, cur);
    }
}

/// What `sym_run_end` marks off: a maximal run of symbol characters.
pub proof fn lemma_sym_run_end(s: Seq<char>, i: int)
    requires
        0 <= i <= s.len(),
    ensures
        i <= sym_run_end(s, i) <= s.len(),
        forall|k: int| i <= k < sym_run_end(s, i) ==> is_symbol_char(s[k]),
        sym_run_end(s, i) < s.len() ==> !is_symbol_char(s[sym_run_end(s, i)]),
    decreases s.len() - i,
{
    if i < s.len() && is_symbol_char(s[i]) {
        lemma_sym_run_end(s, i + 1);
    }
}

/// What `pipe_run_end` marks off: a maximal run free of `|`.
pub proof fn lemma_pipe_run_end(s: Seq<char>, i: int)
    requires
        0 <= i <= s.len(),
    ensures
        i <= pipe_run_end(s, i) <= s.len(),
        forall|k: int| i <= k < pipe_run_end(s, i) ==> s[k] != '|',
        pipe_run_end(s, i) < s.len() ==> s[pipe_run_end(s, i)] == '|',
    decreases s.len() - i,
{
    if i < s.len() && s[i] != '|' {
        lemma_pipe_run_end(s, i + 1);
    }
}

/// What `name_run_end` marks off: a maximal run free of whitespace.
pub proof fn lemma_name_run_end(s: Seq<char>, i: int)
    requires
        0 <= i <= s.len(),
    ensures
        i <= name_run_end(s, i) <= s.len(),
        forall|k: int| i <= k < name_run_end(s, i) ==> !is_ws_char(s[k]),
        name_run_end(s, i) < s.len() ==> is_ws_char(s[name_run_end(s, i)]),
    decreases s.len() - i,
{
    if i < s.len() && !is_ws_char(s[i]) {
        lemma_name_run_end(s, i + 1);
    }
}

/// Executable test for `is_ws_char`.
pub(crate) fn ws_char(c: char) -> (b: bool)
    ensures
        b == is_ws_char(c),
{
    c == ' ' || c == '\t' || c == '\r' || c == '\n'
}

/// Executable test for `is_digit_char`.
pub(crate) fn digit_char_test(c: char) -> (b: bool)
    ensures
        b == is_digit_char(c),
{
    '0' <= c && c <= '9'
}

/// Executable test for `is_symbol_char`.
pub(crate) fn symbol_char_test(c: char) -> (b: bool)
    ensures
        b == is_symbol_char(c),
{
    !(c == ' ' || c == '\t' || c == '\r' || c == '\n') && c != '(' && c != ')'
}

/// Scans past whitespace starting at `i`.
pub(crate) fn scan_ws(s: &str, i: usize) -> (r: usize)
    requires
        i <= s@.len(),
    ensures
        r == ws_run_end(s@, i as int),
        i <= r <= s@.len(),
{
    let n = s.unicode_len();
    let mut j = i;
    while j < n && ws_char(s.get_char(j))
        invariant
            i <= j <= n,
            n == s@.len(),
            ws_run_end(s@, i as int) == ws_run_end(s@, j as int),
        decreases n - j,
    {
        j = j + 1;
    }
    j
}

/// Scans past digits starting at `i`.
pub(crate) fn scan_digits(s: &str, i: usize) -> (r: usize)
    requires
        i <= s@.len(),
    ensures
        r == digit_run_end(s@, i as int),
        i <= r <= s@.len(),
{
    let n = s.unicode_len();
    let mut j = i;
    while j < n && digit_char_test(s.get_char(j))
        invariant
            i <= j <= n,
            n == s@.len(),
            digit_run_end(s@, i as int) == digit_run_end(s@, j as int),
        decreases n - j,
    {
        j = j + 1;
    }
    j
}

/// Scans past symbol characters starting at `i`.
pub(crate) fn scan_sym(s: &str, i: usize) -> (r: usize)
    requires
        i <= s@.len(),
    ensures
        r == sym_run_end(s@, i as int),
        i <= r <= s@.len(),
{
    let n = s.unicode_len();
    let mut j = i;
    while j < n && symbol_char_test(s.get_char(j))
        invariant
            i <= j <= n,
            n == s@.len(),
            sym_run_end(s@, i as int) == sym_run_end(s@, j as int),
        decreases n - j,
    {
        j = j + 1;
    }
    j
}

/// Scans up to the next `|` starting at `i`.
pub(crate) fn scan_pipe(s: &str, i: usize) -> (r: usize)
    requires
        i <= s@.len(),
    ensures
        r == pipe_run_end(s@, i as int),
        i <= r <= s@.len(),
{
    let n = s.unicode_len();
    let mut j = i;
    while j < n && s.get_char(j) != '|'
        invariant
            i <= j <= n,
            n == s@.len(),
            pipe_run_end(s@, i as int) == pipe_run_end(s@, j as int),
        decreases n - j,
    {
        j = j + 1;
    }
    j
}

/// Scans past non-whitespace starting at `i`.
pub(crate) fn scan_name(s: &str, i: usize) -> (r: usize)
    requires
        i <= s@.len(),
    ensures
        r == name_run_end(s@, i as int),
        i <= r <= s@.len(),
{
    let n = s.unicode_len();
    let mut j = i;
    while j < n && !ws_char(s.get_char(j))
        invariant
            i <= j <= n,
            n == s@.len(),
            name_run_end(s@, i as int) == name_run_end(s@, j as int),
        decreases n - j,
    {
        j = j + 1;
    }
    j
}

} // verus!

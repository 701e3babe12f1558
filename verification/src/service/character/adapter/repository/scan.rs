//! A lexical scan of SQL scripts as sqlparser's tokenizer reads them: where
//! string literals, quoted names and comments begin and end, and, for each
//! statement, how many letters, opening brackets and signs stand outside them.
use crate::service::character::adapter::repository::sql::{escape, quoted};
use crate::text::{decimal_int, decimal_nat, digit_char};
use vstd::prelude::*;

verus! {

/// Where the scan stands.
pub enum ScanMode {
    Outside,
    InLiteral,
    InIdentifier,
    LineComment,
    BlockComment,
    BlockStar,
}

/// The scan after some characters: where it stands, the last character read
/// outside literals, names and comments, the counts of the current statement,
/// and whether everything read so far is acceptable.
pub struct ScanState {
    pub mode: ScanMode,
    pub prev: char,
    pub letters: nat,
    pub opens: nat,
    pub signs: nat,
    pub ok: bool,
}

/// At most this many letters per statement outside literals, names and comments.
pub open spec fn max_letters() -> nat {
    128
}

/// At most this many opening brackets per statement.
pub open spec fn max_opens() -> nat {
    8
}

/// At most this many `+` and `-` signs per statement.
pub open spec fn max_signs() -> nat {
    4
}

/// The scan before any character, and after each `;` outside literals.
pub open spec fn scan_start() -> ScanState {
    ScanState { mode: ScanMode::Outside, prev: ' ', letters: 0, opens: 0, signs: 0, ok: true }
}

/// An ASCII letter.
pub open spec fn is_letter(c: char) -> bool {
    ('a' <= c && c <= 'z') || ('A' <= c && c <= 'Z')
}

/// An ASCII digit.
pub open spec fn is_digit(c: char) -> bool {
    '0' <= c && c <= '9'
}

/// Characters that give operators without a parser: `]`, `#`, `<<` and `>>`.
pub open spec fn forbidden(prev: char, c: char) -> bool {
    c == ']' || c == '#' || (c == '<' && prev == '<') || (c == '>' && prev == '>')
}

/// Reading `c` outside literals, names and comments.
pub open spec fn read_outside(st: ScanState, c: char) -> ScanState {
    if c == ';' {
        scan_start()
    } else if c == '\'' {
        ScanState { mode: ScanMode::InLiteral, prev: '\'', ..st }
    } else if c == '"' {
        ScanState { mode: ScanMode::InIdentifier, prev: '"', ..st }
    } else if c == '-' && st.prev == '-' {
        ScanState { mode: ScanMode::LineComment, prev: ' ', ..st }
    } else if c == '*' && st.prev == '/' {
        ScanState { mode: ScanMode::BlockComment, prev: ' ', ..st }
    } else {
        let letters = st.letters + if is_letter(c) { 1nat } else { 0nat };
        let opens = st.opens + if c == '(' { 1nat } else { 0nat };
        let signs = st.signs + if c == '+' || c == '-' { 1nat } else { 0nat };
        ScanState {
            mode: ScanMode::Outside,
            prev: c,
            letters,
            opens,
            signs,
            ok: !forbidden(st.prev, c) && letters <= max_letters() && opens <= max_opens()
                && signs <= max_signs(),
        }
    }
}

/// Reading one character. A quote right after a literal's closing quote
/// stands for a quote inside it, as the tokenizer reads `''`.
pub open spec fn scan_step(st: ScanState, c: char) -> ScanState {
    if !st.ok {
        st
    } else {
        match st.mode {
            ScanMode::Outside => read_outside(st, c),
            ScanMode::InLiteral => if c == '\'' {
                ScanState { mode: ScanMode::Outside, prev: '\'', ..st }
            } else {
                st
            },
            ScanMode::InIdentifier => if c == '"' {
                ScanState { mode: ScanMode::Outside, prev: '"', ..st }
            } else {
                st
            },
            ScanMode::LineComment => if c == '\n' {
                ScanState { mode: ScanMode::Outside, prev: ' ', ..st }
            } else {
                st
            },
            ScanMode::BlockComment => if c == '*' {
                ScanState { mode: ScanMode::BlockStar, ..st }
            } else {
                st
            },
            ScanMode::BlockStar => if c == '/' {
                ScanState { mode: ScanMode::Outside, prev: ' ', ..st }
            } else if c == '*' {
                st
            } else {
                ScanState { mode: ScanMode::BlockComment, ..st }
            },
        }
    }
}

/// The scan from `st` over the first `n` characters of `s`.
pub open spec fn scan_from(st: ScanState, s: Seq<char>, n: nat) -> ScanState
    decreases n,
{
    if n == 0 {
        st
    } else {
        scan_step(scan_from(st, s, (n - 1) as nat), s[n - 1])
    }
}

/// The scan from `st` over all of `s`.
pub open spec fn scan_text(st: ScanState, s: Seq<char>) -> ScanState {
    scan_from(st, s, s.len())
}

/// A script with, outside string literals, quoted names and comments, none of
/// `]`, `#`, `<<`, `>>`, and in each statement at most [`max_letters`]
/// letters, [`max_opens`] opening brackets and [`max_signs`] signs.
pub open spec fn lexically_safe(sql: Seq<char>) -> bool {
    scan_text(scan_start(), sql).ok
}

/// A scan outside literals with nothing refused.
pub open spec fn fits(st: ScanState) -> bool {
    &&& st.ok
    &&& st.mode is Outside
    &&& st.letters <= max_letters()
    &&& st.opens <= max_opens()
    &&& st.signs <= max_signs()
}

/// Whether `c` read right after `prev` continues a two-character token.
pub open spec fn conflict(prev: char, c: char) -> bool {
    ||| prev == '-' && c == '-'
    ||| prev == '/' && c == '*'
    ||| prev == '\'' && c == '\''
    ||| prev == '"' && c == '"'
    ||| prev == '<' && c == '<'
    ||| prev == '>' && c == '>'
}

/// No `;` among the first `n` characters.
pub open spec fn no_semicolon(t: Seq<char>, n: nat) -> bool
    decreases n,
{
    n == 0 || (t[n - 1] != ';' && no_semicolon(t, (n - 1) as nat))
}

/// `r` with the counts of `st` added.
pub open spec fn shifted(r: ScanState, st: ScanState) -> ScanState {
    ScanState {
        letters: st.letters + r.letters,
        opens: st.opens + r.opens,
        signs: st.signs + r.signs,
        ..r
    }
}

proof fn lemma_scan_prefix(st: ScanState, s1: Seq<char>, s2: Seq<char>, n: nat)
    requires
        n <= s1.len(),
        n <= s2.len(),
        forall|i: int| 0 <= i < n ==> s1[i] == s2[i],
    ensures
        scan_from(st, s1, n) == scan_from(st, s2, n),
    decreases n,
{
    if n > 0 {
        lemma_scan_prefix(st, s1, s2, (n - 1) as nat);
    }
}

proof fn lemma_scan_concat_upto(st: ScanState, a: Seq<char>, b: Seq<char>, k: nat)
    requires
        k <= b.len(),
    ensures
        scan_from(st, a + b, a.len() + k) == scan_from(scan_text(st, a), b, k),
    decreases k,
{
    if k == 0 {
        lemma_scan_prefix(st, a + b, a, a.len());
    } else {
        lemma_scan_concat_upto(st, a, b, (k - 1) as nat);
        assert((a + b)[a.len() + k - 1] == b[k - 1]);
    }
}

/// Scanning a concatenation is scanning its parts in turn.
pub proof fn lemma_scan_concat(st: ScanState, a: Seq<char>, b: Seq<char>)
    ensures
        scan_text(st, a + b) == scan_text(scan_text(st, a), b),
{
    lemma_scan_concat_upto(st, a, b, b.len());
}

/// Without `;`, a scan that ends acceptable was acceptable all along and its
/// counts only grew.
proof fn lemma_scan_monotone(x: ScanState, t: Seq<char>, k: nat, n: nat)
    requires
        k <= n <= t.len(),
        no_semicolon(t, n),
        scan_from(x, t, n).ok,
    ensures
        scan_from(x, t, k).ok,
        scan_from(x, t, k).letters <= scan_from(x, t, n).letters,
        scan_from(x, t, k).opens <= scan_from(x, t, n).opens,
        scan_from(x, t, k).signs <= scan_from(x, t, n).signs,
    decreases n - k,
{
    if k < n {
        assert(t[n - 1] != ';');
        lemma_scan_monotone(x, t, k, (n - 1) as nat);
    }
}

proof fn lemma_shift_upto(st: ScanState, t: Seq<char>, k: nat)
    requires
        1 <= k <= t.len(),
        fits(st),
        !conflict(st.prev, t[0]),
        no_semicolon(t, t.len()),
        scan_text(scan_start(), t).ok,
        st.letters + scan_text(scan_start(), t).letters <= max_letters(),
        st.opens + scan_text(scan_start(), t).opens <= max_opens(),
        st.signs + scan_text(scan_start(), t).signs <= max_signs(),
    ensures
        scan_from(st, t, k) == shifted(scan_from(scan_start(), t, k), st),
    decreases k,
{
    lemma_scan_monotone(scan_start(), t, k, t.len());
    if k == 1 {
        assert(t[0] != ';') by {
            lemma_no_semicolon(t, t.len(), 0);
        }
        assert(scan_from(st, t, 0) == st);
        assert(scan_from(scan_start(), t, 0) == scan_start());
    } else {
        lemma_shift_upto(st, t, (k - 1) as nat);
        lemma_scan_monotone(scan_start(), t, (k - 1) as nat, t.len());
        assert(t[k - 1] != ';') by {
            lemma_no_semicolon(t, t.len(), k - 1);
        }
    }
}

proof fn lemma_no_semicolon(t: Seq<char>, n: nat, i: int)
    requires
        no_semicolon(t, n),
        0 <= i < n,
    ensures
        t[i] != ';',
    decreases n,
{
    if i < n - 1 {
        lemma_no_semicolon(t, (n - 1) as nat, i);
    }
}

/// A fixed text without `;` scans from any fitting state as it scans from the
/// start, its counts added to those already read.
pub proof fn lemma_fixed(st: ScanState, t: Seq<char>)
    requires
        t.len() > 0,
        fits(st),
        !conflict(st.prev, t[0]),
        no_semicolon(t, t.len()),
        scan_text(scan_start(), t).ok,
        st.letters + scan_text(scan_start(), t).letters <= max_letters(),
        st.opens + scan_text(scan_start(), t).opens <= max_opens(),
        st.signs + scan_text(scan_start(), t).signs <= max_signs(),
    ensures
        scan_text(st, t) == shifted(scan_text(scan_start(), t), st),
{
    lemma_shift_upto(st, t, t.len());
}

/// Inside a literal, escaped text leaves the scan where it was.
pub proof fn lemma_literal_body(st: ScanState, x: Seq<char>)
    requires
        st.ok,
        st.mode is InLiteral,
        st.prev == '\'',
    ensures
        scan_text(st, escape(x)) == st,
    decreases x.len(),
{
    if x.len() > 0 {
        let head = escape(x.drop_last());
        let tail: Seq<char> = if x.last() == '\'' {
            seq!['\'', '\'']
        } else {
            seq![x.last()]
        };
        lemma_literal_body(st, x.drop_last());
        lemma_scan_concat(st, head, tail);
        reveal_with_fuel(scan_from, 3);
    }
}

/// A string literal read outside literals leaves the scan outside again, just
/// after its closing quote, with the counts unchanged.
pub proof fn lemma_quoted(st: ScanState, x: Seq<char>)
    requires
        fits(st),
        st.prev != '\'',
    ensures
        scan_text(st, quoted(x)) == (ScanState { prev: '\'', ..st }),
{
    let open = ScanState { mode: ScanMode::InLiteral, prev: '\'', ..st };
    reveal_with_fuel(scan_from, 2);
    assert(scan_text(st, seq!['\'']) == open);
    lemma_literal_body(open, x);
    lemma_scan_concat(st, seq!['\''], escape(x));
    lemma_scan_concat(st, seq!['\''] + escape(x), seq!['\'']);
}

/// Decimal digits leave the counts unchanged and end on a digit.
pub proof fn lemma_digits(st: ScanState, n: nat)
    requires
        fits(st),
    ensures
        scan_text(st, decimal_nat(n)) == (ScanState {
            prev: scan_text(st, decimal_nat(n)).prev,
            ..st
        }),
        is_digit(scan_text(st, decimal_nat(n)).prev),
    decreases n,
{
    reveal_with_fuel(scan_from, 2);
    if n >= 10 {
        let d = digit_char((n % 10) as int);
        lemma_digits(st, n / 10);
        assert(decimal_nat(n) =~= decimal_nat(n / 10) + seq![d]);
        lemma_scan_concat(st, decimal_nat(n / 10), seq![d]);
    }
}

/// An integer in decimal adds at most one sign and ends on a digit.
pub proof fn lemma_decimal(st: ScanState, i: int)
    requires
        fits(st),
        st.prev != '-',
        st.signs < max_signs(),
    ensures
        fits(scan_text(st, decimal_int(i))),
        scan_text(st, decimal_int(i)).letters == st.letters,
        scan_text(st, decimal_int(i)).opens == st.opens,
        scan_text(st, decimal_int(i)).signs <= st.signs + 1,
        is_digit(scan_text(st, decimal_int(i)).prev),
{
    if i < 0 {
        reveal_with_fuel(scan_from, 2);
        let minus = scan_text(st, seq!['-']);
        assert(fits(minus) && minus.signs == st.signs + 1 && minus.letters == st.letters
            && minus.opens == st.opens);
        lemma_digits(minus, (-i) as nat);
        lemma_scan_concat(st, seq!['-'], decimal_nat((-i) as nat));
    } else {
        lemma_digits(st, i as nat);
    }
}

} // verus!

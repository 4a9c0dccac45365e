//! Verified text utilities shared by the table parsers: whitespace
//! tokenizing, line splitting, lexicographic order on strings, and decimal
//! parsing and formatting.

use vstd::prelude::*;
use vstd::string::*;

verus! {

/// The whitespace characters that separate fields in the tables this crate
/// reads.
pub open spec fn is_ws(c: char) -> bool {
    c == ' ' || c == '\t' || c == '\n' || c == '\r'
}

fn ws_char(c: char) -> (r: bool)
    ensures
        r == is_ws(c),
{
    c == ' ' || c == '\t' || c == '\n' || c == '\r'
}

// ---------------------------------------------------------------------------
// Decimal digits
// ---------------------------------------------------------------------------
pub open spec fn is_digit(c: char) -> bool {
    48 <= c as u32 && c as u32 <= 57
}

pub open spec fn digit_val(c: char) -> nat {
    (c as u32 - 48) as nat
}

/// A non-empty, all-digit character sequence.
pub open spec fn is_digits(t: Seq<char>) -> bool {
    t.len() > 0 && forall|i: int| 0 <= i < t.len() ==> is_digit(#[trigger] t[i])
}

/// The numeric value of a digit sequence, most significant digit first.
pub open spec fn dec_val(t: Seq<char>) -> nat
    decreases t.len(),
{
    if t.len() == 0 {
        0
    } else {
        dec_val(t.drop_last()) * 10 + digit_val(t.last())
    }
}

/// A longer all-digit prefix of `t` never has a larger value than `t` itself.
proof fn lemma_dec_val_prefix_le(t: Seq<char>, m: int)
    requires
        0 <= m <= t.len(),
        forall|k: int| m <= k < t.len() ==> is_digit(#[trigger] t[k]),
    ensures
        dec_val(t.take(m)) <= dec_val(t),
    decreases t.len() - m,
{
    if m < t.len() {
        assert(t.take(m + 1).drop_last() =~= t.take(m));
        assert(t.take(m + 1).last() == t[m]);
        assert(dec_val(t.take(m + 1)) == dec_val(t.take(m)) * 10 + digit_val(t[m]));
        lemma_dec_val_prefix_le(t, m + 1);
    } else {
        assert(t.take(m) =~= t);
    }
}

/// Parse a non-empty, all-digit string into a `u64`; anything else (an empty
/// string, a non-digit character, a value over `u64::MAX`) yields `None`.
pub fn parse_u64(s: &str) -> (r: Option<u64>)
    ensures
        match r {
            Some(v) => is_digits(s@) && dec_val(s@) <= u64::MAX && v == dec_val(s@),
            None => !(is_digits(s@) && dec_val(s@) <= u64::MAX),
        },
{
    let n = s.unicode_len();
    if n == 0 {
        return None;
    }
    let mut acc: u128 = 0;
    let mut i: usize = 0;
    while i < n
        invariant
            0 <= i <= n,
            n == s@.len(),
            forall|k: int| 0 <= k < i ==> is_digit(#[trigger] s@[k]),
            acc == dec_val(s@.take(i as int)),
            acc <= u64::MAX,
        decreases n - i,
    {
        let c = s.get_char(i);
        let u = c as u32;
        if u < 48 || u > 57 {
            assert(!is_digit(s@[i as int]));
            return None;
        }
        let d = (u - 48) as u128;
        proof {
            assert(s@.take(i as int + 1).drop_last() =~= s@.take(i as int));
            assert(s@.take(i as int + 1).last() == s@[i as int]);
        }
        let next = acc * 10 + d;
        if next > u64::MAX as u128 {
            proof {
                if is_digits(s@) && dec_val(s@) <= u64::MAX {
                    lemma_dec_val_prefix_le(s@, i as int + 1);
                }
            }
            return None;
        }
        acc = next;
        i += 1;
    }
    proof {
        assert(s@.take(n as int) =~= s@);
    }
    Some(acc as u64)
}

/// As `parse_u64`, further bounded by `u32::MAX`.
pub fn parse_u32(s: &str) -> (r: Option<u32>)
    ensures
        match r {
            Some(v) => is_digits(s@) && dec_val(s@) <= u32::MAX && v == dec_val(s@),
            None => !(is_digits(s@) && dec_val(s@) <= u32::MAX),
        },
{
    match parse_u64(s) {
        Some(v) => {
            if v <= u32::MAX as u64 {
                Some(v as u32)
            } else {
                None
            }
        },
        None => None,
    }
}

// ---------------------------------------------------------------------------
// Decimal formatting
// ---------------------------------------------------------------------------
pub open spec fn digit_char(d: nat) -> char {
    if d == 0 {
        '0'
    } else if d == 1 {
        '1'
    } else if d == 2 {
        '2'
    } else if d == 3 {
        '3'
    } else if d == 4 {
        '4'
    } else if d == 5 {
        '5'
    } else if d == 6 {
        '6'
    } else if d == 7 {
        '7'
    } else if d == 8 {
        '8'
    } else {
        '9'
    }
}

/// The decimal rendering of `n`, most significant digit first, no leading
/// zeros (a single `'0'` for zero).
pub open spec fn dec_chars(n: nat) -> Seq<char>
    decreases n,
{
    if n < 10 {
        seq![digit_char(n)]
    } else {
        dec_chars(n / 10).push(digit_char(n % 10))
    }
}

fn digit_str(d: u64) -> (r: &'static str)
    requires
        d < 10,
    ensures
        r@ == seq![digit_char(d as nat)],
{
    if d == 0 {
        proof {
            reveal_strlit("0");
            assert("0"@ =~= seq![digit_char(0)]);
        }
        "0"
    } else if d == 1 {
        proof {
            reveal_strlit("1");
            assert("1"@ =~= seq![digit_char(1)]);
        }
        "1"
    } else if d == 2 {
        proof {
            reveal_strlit("2");
            assert("2"@ =~= seq![digit_char(2)]);
        }
        "2"
    } else if d == 3 {
        proof {
            reveal_strlit("3");
            assert("3"@ =~= seq![digit_char(3)]);
        }
        "3"
    } else if d == 4 {
        proof {
            reveal_strlit("4");
            assert("4"@ =~= seq![digit_char(4)]);
        }
        "4"
    } else if d == 5 {
        proof {
            reveal_strlit("5");
            assert("5"@ =~= seq![digit_char(5)]);
        }
        "5"
    } else if d == 6 {
        proof {
            reveal_strlit("6");
            assert("6"@ =~= seq![digit_char(6)]);
        }
        "6"
    } else if d == 7 {
        proof {
            reveal_strlit("7");
            assert("7"@ =~= seq![digit_char(7)]);
        }
        "7"
    } else if d == 8 {
        proof {
            reveal_strlit("8");
            assert("8"@ =~= seq![digit_char(8)]);
        }
        "8"
    } else {
        proof {
            reveal_strlit("9");
            assert("9"@ =~= seq![digit_char(9)]);
        }
        "9"
    }
}

/// Render `n` in decimal.
pub fn u64_to_string(n: u64) -> (s: String)
    ensures
        s@ == dec_chars(n as nat),
    decreases n,
{
    if n < 10 {
        String::from_str(digit_str(n))
    } else {
        let mut s = u64_to_string(n / 10);
        s.append(digit_str(n % 10));
        proof {
            assert(dec_chars((n as nat) / 10).push(digit_char((n as nat) % 10)) =~= dec_chars(
                (n as nat) / 10,
            ) + seq![digit_char((n as nat) % 10)]);
        }
        s
    }
}

/// The rendering of a value held in hundredths: integer part, `'.'`, then
/// exactly two fractional digits.
pub open spec fn fixed2_chars(v: nat) -> Seq<char> {
    dec_chars(v / 100) + seq!['.', digit_char(v % 100 / 10), digit_char(v % 10)]
}

/// The rendering of a value held in tenths: integer part, `'.'`, then exactly
/// one fractional digit.
pub open spec fn fixed1_chars(v: nat) -> Seq<char> {
    dec_chars(v / 10) + seq!['.', digit_char(v % 10)]
}

/// Render a fixed-point value held in hundredths, as in `742` -> `"7.42"`.
pub fn fmt_hundredths(v: u64) -> (s: String)
    ensures
        s@ == fixed2_chars(v as nat),
{
    let mut s = u64_to_string(v / 100);
    proof {
        reveal_strlit(".");
    }
    s.append(".");
    s.append(digit_str(v % 100 / 10));
    s.append(digit_str(v % 10));
    proof {
        assert(v as nat % 100 / 10 == (v % 100 / 10) as nat);
        assert(s@ =~= fixed2_chars(v as nat));
    }
    s
}

/// Render a fixed-point value held in tenths, as in `60` -> `"6.0"`.
pub fn fmt_tenths(v: u64) -> (s: String)
    ensures
        s@ == fixed1_chars(v as nat),
{
    let mut s = u64_to_string(v / 10);
    proof {
        reveal_strlit(".");
    }
    s.append(".");
    s.append(digit_str(v % 10));
    proof {
        assert(s@ =~= fixed1_chars(v as nat));
    }
    s
}

// ---------------------------------------------------------------------------
// Lexicographic order
// ---------------------------------------------------------------------------
/// Lexicographic order on character sequences by code point, the order in
/// which the snapshot's list-valued fields are kept.
pub open spec fn lex_le(a: Seq<char>, b: Seq<char>) -> bool
    decreases a.len(),
{
    if a.len() == 0 {
        true
    } else if b.len() == 0 {
        false
    } else if (a[0] as u32) < (b[0] as u32) {
        true
    } else if (b[0] as u32) < (a[0] as u32) {
        false
    } else {
        lex_le(a.skip(1), b.skip(1))
    }
}

/// `lex_le` is total: any two strings compare one way or the other.
pub proof fn lemma_lex_le_total(a: Seq<char>, b: Seq<char>)
    ensures
        lex_le(a, b) || lex_le(b, a),
    decreases a.len(),
{
    if a.len() > 0 && b.len() > 0 && a[0] as u32 == b[0] as u32 {
        lemma_lex_le_total(a.skip(1), b.skip(1));
    }
}

pub fn str_lex_le(a: &str, b: &str) -> (r: bool)
    ensures
        r == lex_le(a@, b@),
{
    let an = a.unicode_len();
    let bn = b.unicode_len();
    let mut i: usize = 0;
    proof {
        assert(a@.skip(0) =~= a@);
        assert(b@.skip(0) =~= b@);
    }
    loop
        invariant
            i <= an,
            i <= bn,
            an == a@.len(),
            bn == b@.len(),
            lex_le(a@, b@) == lex_le(a@.skip(i as int), b@.skip(i as int)),
        decreases an - i,
    {
        if i >= an {
            return true;
        }
        if i >= bn {
            return false;
        }
        let ca = a.get_char(i) as u32;
        let cb = b.get_char(i) as u32;
        if ca < cb {
            return true;
        }
        if cb < ca {
            return false;
        }
        proof {
            assert(a@.skip(i as int).skip(1) =~= a@.skip(i as int + 1));
            assert(b@.skip(i as int).skip(1) =~= b@.skip(i as int + 1));
        }
        i += 1;
    }
}

/// Character-for-character equality of two string slices.
pub fn str_eq(a: &str, b: &str) -> (r: bool)
    ensures
        r == (a@ == b@),
{
    let an = a.unicode_len();
    let bn = b.unicode_len();
    if an != bn {
        return false;
    }
    let mut i: usize = 0;
    while i < an
        invariant
            0 <= i <= an,
            an == a@.len(),
            bn == b@.len(),
            an == bn,
            forall|k: int| 0 <= k < i ==> a@[k] == b@[k],
        decreases an - i,
    {
        if a.get_char(i) != b.get_char(i) {
            return false;
        }
        i += 1;
    }
    proof {
        assert(a@ =~= b@);
    }
    true
}

// ---------------------------------------------------------------------------
// Prefixes, suffixes, trimming
// ---------------------------------------------------------------------------
pub open spec fn has_prefix(s: Seq<char>, p: Seq<char>) -> bool {
    p.len() <= s.len() && s.take(p.len() as int) == p
}

pub fn str_has_prefix(s: &str, p: &str) -> (r: bool)
    ensures
        r == has_prefix(s@, p@),
{
    let sn = s.unicode_len();
    let pn = p.unicode_len();
    if pn > sn {
        return false;
    }
    let mut i: usize = 0;
    while i < pn
        invariant
            0 <= i <= pn <= sn,
            sn == s@.len(),
            pn == p@.len(),
            forall|k: int| 0 <= k < i ==> s@[k] == p@[k],
        decreases pn - i,
    {
        if s.get_char(i) != p.get_char(i) {
            proof {
                assert(s@.take(pn as int)[i as int] == s@[i as int]);
            }
            return false;
        }
        i += 1;
    }
    proof {
        assert(s@.take(pn as int) =~= p@);
    }
    true
}

pub open spec fn has_suffix(s: Seq<char>, p: Seq<char>) -> bool {
    p.len() <= s.len() && s.skip(s.len() - p.len()) == p
}

pub fn str_has_suffix(s: &str, p: &str) -> (r: bool)
    ensures
        r == has_suffix(s@, p@),
{
    let sn = s.unicode_len();
    let pn = p.unicode_len();
    if pn > sn {
        return false;
    }
    let off = sn - pn;
    let mut i: usize = 0;
    while i < pn
        invariant
            0 <= i <= pn <= sn,
            sn == s@.len(),
            pn == p@.len(),
            off == sn - pn,
            forall|k: int| 0 <= k < i ==> s@[off + k] == p@[k],
        decreases pn - i,
    {
        if s.get_char(off + i) != p.get_char(i) {
            proof {
                assert(s@.skip(off as int)[i as int] == s@[off + i]);
            }
            return false;
        }
        i += 1;
    }
    proof {
        assert(s@.skip(off as int) =~= p@);
    }
    true
}

/// `t` with every leading repetition of the pattern `p` removed.
pub open spec fn trim_start_matches(t: Seq<char>, p: Seq<char>) -> Seq<char>
    decreases t.len(),
{
    if p.len() > 0 && has_prefix(t, p) {
        trim_start_matches(t.skip(p.len() as int), p)
    } else {
        t
    }
}

pub fn str_trim_start_matches(s: &str, p: &str) -> (r: String)
    ensures
        r@ == trim_start_matches(s@, p@),
{
    let n = s.unicode_len();
    let pn = p.unicode_len();
    if pn == 0 {
        return s.to_owned();
    }
    let mut off: usize = 0;
    proof {
        assert(s@.skip(0) =~= s@);
    }
    loop
        invariant
            0 <= off <= n,
            n == s@.len(),
            pn == p@.len(),
            pn > 0,
            trim_start_matches(s@, p@) == trim_start_matches(s@.skip(off as int), p@),
        decreases n - off,
    {
        let rest = s.substring_char(off, n);
        proof {
            assert(rest@ =~= s@.skip(off as int));
        }
        if !str_has_prefix(rest, p) {
            return rest.to_owned();
        }
        proof {
            assert(s@.skip(off as int).skip(pn as int) =~= s@.skip(off as int + pn as int));
        }
        off += pn;
    }
}

/// `t` with every trailing occurrence of `c` removed.
pub open spec fn trim_end_char(t: Seq<char>, c: char) -> Seq<char>
    decreases t.len(),
{
    if t.len() > 0 && t.last() == c {
        trim_end_char(t.drop_last(), c)
    } else {
        t
    }
}

pub fn str_trim_end_char(s: &str, c: char) -> (r: String)
    ensures
        r@ == trim_end_char(s@, c),
{
    let n = s.unicode_len();
    let mut k = n;
    proof {
        assert(s@.take(n as int) =~= s@);
    }
    while k > 0 && s.get_char(k - 1) == c
        invariant
            0 <= k <= n,
            n == s@.len(),
            trim_end_char(s@, c) == trim_end_char(s@.take(k as int), c),
        decreases k,
    {
        proof {
            assert(s@.take(k as int).last() == s@[k as int - 1]);
            assert(s@.take(k as int).drop_last() =~= s@.take(k as int - 1));
        }
        k -= 1;
    }
    let r = s.substring_char(0, k).to_owned();
    proof {
        assert(s@.take(k as int) == s@.subrange(0, k as int));
        if k > 0 {
            assert(s@.take(k as int).last() == s@[k as int - 1]);
        }
        assert(trim_end_char(s@.take(k as int), c) == s@.take(k as int));
    }
    r
}

// ---------------------------------------------------------------------------
// Whitespace tokens
// ---------------------------------------------------------------------------
/// The views of a sequence of owned strings.
pub open spec fn views(v: Seq<String>) -> Seq<Seq<char>> {
    v.map_values(|x: String| x@)
}

/// The sequence without its first `n` elements; empty when `s` is shorter
/// than `n`. Total, unlike `Seq::skip`, so header-skipping specs stay
/// meaningful on truncated input.
pub open spec fn drop_prefix<A>(s: Seq<A>, n: int) -> Seq<A> {
    if 0 <= n <= s.len() {
        s.skip(n)
    } else if n < 0 {
        s
    } else {
        Seq::empty()
    }
}

/// Length of the leading run of non-whitespace characters.
pub open spec fn token_len(s: Seq<char>) -> nat
    decreases s.len(),
{
    if s.len() == 0 || is_ws(s[0]) {
        0
    } else {
        1 + token_len(s.skip(1))
    }
}

proof fn lemma_token_len_le(s: Seq<char>)
    ensures
        token_len(s) <= s.len(),
    decreases s.len(),
{
    if s.len() > 0 && !is_ws(s[0]) {
        lemma_token_len_le(s.skip(1));
    }
}

proof fn lemma_token_len_is(s: Seq<char>, m: int)
    requires
        0 <= m <= s.len(),
        forall|k: int| 0 <= k < m ==> !is_ws(#[trigger] s[k]),
        m == s.len() || is_ws(s[m]),
    ensures
        token_len(s) == m,
    decreases m,
{
    if m > 0 {
        lemma_token_len_is(s.skip(1), m - 1);
    }
}

/// The maximal whitespace-separated words of `s`, in order.
pub open spec fn ws_tokens(s: Seq<char>) -> Seq<Seq<char>>
    decreases s.len(),
    via ws_tokens_dec
{
    if s.len() == 0 {
        Seq::empty()
    } else if is_ws(s[0]) {
        ws_tokens(s.skip(1))
    } else {
        seq![s.take(token_len(s) as int)] + ws_tokens(s.skip(token_len(s) as int))
    }
}

#[via_fn]
proof fn ws_tokens_dec(s: Seq<char>) {
    if s.len() > 0 && !is_ws(s[0]) {
        lemma_token_len_le(s);
    }
}

fn scan_token_end(s: &str, start: usize) -> (j: usize)
    requires
        start < s@.len(),
        !is_ws(s@[start as int]),
    ensures
        start < j <= s@.len(),
        forall|k: int| start <= k < j ==> !is_ws(#[trigger] s@[k]),
        j == s@.len() || is_ws(s@[j as int]),
{
    let n = s.unicode_len();
    let mut j = start + 1;
    while j < n
        invariant
            start < j <= n,
            n == s@.len(),
            forall|k: int| start <= k < j ==> !is_ws(#[trigger] s@[k]),
        decreases n - j,
    {
        if ws_char(s.get_char(j)) {
            return j;
        }
        j += 1;
    }
    j
}

/// Split `s` into its whitespace-separated words.
pub fn split_ws(s: &str) -> (r: Vec<String>)
    ensures
        views(r@) == ws_tokens(s@),
{
    let n = s.unicode_len();
    let mut r: Vec<String> = Vec::new();
    let mut i: usize = 0;
    proof {
        assert(s@.skip(0) =~= s@);
        assert(views(r@) + ws_tokens(s@) =~= ws_tokens(s@));
    }
    while i < n
        invariant
            0 <= i <= n,
            n == s@.len(),
            ws_tokens(s@) == views(r@) + ws_tokens(s@.skip(i as int)),
        decreases n - i,
    {
        let c = s.get_char(i);
        if ws_char(c) {
            proof {
                assert(s@.skip(i as int)[0] == s@[i as int]);
                assert(s@.skip(i as int).skip(1) =~= s@.skip(i as int + 1));
            }
            i += 1;
        } else {
            let j = scan_token_end(s, i);
            let tok = s.substring_char(i, j).to_owned();
            r.push(tok);
            proof {
                let rem = s@.skip(i as int);
                assert(rem[0] == s@[i as int]);
                assert forall|k: int| 0 <= k < j - i implies !is_ws(#[trigger] rem[k]) by {
                    assert(rem[k] == s@[i + k]);
                }
                if j < n {
                    assert(rem[j - i] == s@[j as int]);
                }
                lemma_token_len_is(rem, j as int - i as int);
                assert(rem.take(j as int - i as int) =~= s@.subrange(i as int, j as int));
                assert(rem.skip(j as int - i as int) =~= s@.skip(j as int));
                assert(ws_tokens(s@) =~~= views(r@) + ws_tokens(s@.skip(j as int)));
            }
            i = j;
        }
    }
    proof {
        assert(ws_tokens(s@.skip(n as int)) =~= Seq::<Seq<char>>::empty());
        assert(views(r@) + ws_tokens(s@.skip(n as int)) =~= views(r@));
    }
    r
}

// ---------------------------------------------------------------------------
// Lines
// ---------------------------------------------------------------------------
/// Length of the leading run of characters before the first newline.
pub open spec fn line_len(s: Seq<char>) -> nat
    decreases s.len(),
{
    if s.len() == 0 || s[0] == '\n' {
        0
    } else {
        1 + line_len(s.skip(1))
    }
}

proof fn lemma_line_len_le(s: Seq<char>)
    ensures
        line_len(s) <= s.len(),
    decreases s.len(),
{
    if s.len() > 0 && s[0] != '\n' {
        lemma_line_len_le(s.skip(1));
    }
}

proof fn lemma_line_len_is(s: Seq<char>, m: int)
    requires
        0 <= m <= s.len(),
        forall|k: int| 0 <= k < m ==> #[trigger] s[k] != '\n',
        m == s.len() || s[m] == '\n',
    ensures
        line_len(s) == m,
    decreases m,
{
    if m > 0 {
        lemma_line_len_is(s.skip(1), m - 1);
    }
}

/// A line with a trailing carriage return removed.
pub open spec fn strip_cr(t: Seq<char>) -> Seq<char> {
    if t.len() > 0 && t.last() == '\r' {
        t.drop_last()
    } else {
        t
    }
}

/// The lines of `s`: segments between newlines, each with a trailing
/// carriage return removed; a final newline opens no empty last line.
pub open spec fn text_lines(s: Seq<char>) -> Seq<Seq<char>>
    decreases s.len(),
    via text_lines_dec
{
    if s.len() == 0 {
        Seq::empty()
    } else {
        let ll = line_len(s) as int;
        if ll == s.len() {
            seq![strip_cr(s)]
        } else {
            seq![strip_cr(s.take(ll))] + text_lines(s.skip(ll + 1))
        }
    }
}

#[via_fn]
proof fn text_lines_dec(s: Seq<char>) {
    if s.len() > 0 {
        lemma_line_len_le(s);
    }
}

fn scan_line_end(s: &str, start: usize) -> (j: usize)
    requires
        start <= s@.len(),
    ensures
        start <= j <= s@.len(),
        forall|k: int| start <= k < j ==> #[trigger] s@[k] != '\n',
        j == s@.len() || s@[j as int] == '\n',
{
    let n = s.unicode_len();
    let mut j = start;
    while j < n
        invariant
            start <= j <= n,
            n == s@.len(),
            forall|k: int| start <= k < j ==> #[trigger] s@[k] != '\n',
        decreases n - j,
    {
        if s.get_char(j) == '\n' {
            return j;
        }
        j += 1;
    }
    j
}

/// Split `s` into lines.
pub fn split_lines(s: &str) -> (r: Vec<String>)
    ensures
        views(r@) == text_lines(s@),
{
    let n = s.unicode_len();
    let mut r: Vec<String> = Vec::new();
    let mut i: usize = 0;
    proof {
        assert(s@.skip(0) =~= s@);
        assert(views(r@) + text_lines(s@) =~= text_lines(s@));
    }
    while i < n
        invariant
            0 <= i <= n,
            n == s@.len(),
            text_lines(s@) == views(r@) + text_lines(s@.skip(i as int)),
        decreases n - i,
    {
        let j = scan_line_end(s, i);
        let end = if j > i && s.get_char(j - 1) == '\r' {
            j - 1
        } else {
            j
        };
        let line = s.substring_char(i, end).to_owned();
        r.push(line);
        proof {
            let rem = s@.skip(i as int);
            assert forall|k: int| 0 <= k < j - i implies #[trigger] rem[k] != '\n' by {
                assert(rem[k] == s@[i + k]);
            }
            if j < n {
                assert(rem[j - i] == s@[j as int]);
            }
            lemma_line_len_is(rem, j as int - i as int);
            let part = rem.take(j as int - i as int);
            assert(part =~= s@.subrange(i as int, j as int));
            if j > i && s@[j as int - 1] == '\r' {
                assert(part.last() == s@[j as int - 1]);
                assert(part.drop_last() =~= s@.subrange(i as int, j as int - 1));
                assert(strip_cr(part) == s@.subrange(i as int, end as int));
            } else {
                if j > i {
                    assert(part.last() == s@[j as int - 1]);
                }
                assert(strip_cr(part) == s@.subrange(i as int, end as int));
            }
            if j < n {
                assert(rem.skip(j - i + 1) =~= s@.skip(j as int + 1));
                assert(text_lines(s@) =~~= views(r@) + text_lines(s@.skip(j as int + 1)));
            } else {
                assert(part =~= rem);
                assert(text_lines(rem) =~= seq![strip_cr(rem)]);
                assert(text_lines(s@.skip(n as int)) =~= Seq::<Seq<char>>::empty());
                assert(text_lines(s@) =~~= views(r@) + text_lines(s@.skip(n as int)));
            }
        }
        if j < n {
            i = j + 1;
        } else {
            i = j;
        }
    }
    proof {
        assert(text_lines(s@.skip(n as int)) =~= Seq::<Seq<char>>::empty());
        assert(views(r@) + text_lines(s@.skip(n as int)) =~= views(r@));
    }
    r
}

// ---------------------------------------------------------------------------
// Searching for a separator
// ---------------------------------------------------------------------------
/// Index of the first occurrence of `c` in `t`, or `t.len()` if absent.
pub open spec fn char_idx(t: Seq<char>, c: char) -> nat
    decreases t.len(),
{
    if t.len() == 0 || t[0] == c {
        0
    } else {
        1 + char_idx(t.skip(1), c)
    }
}

proof fn lemma_char_idx_is(t: Seq<char>, c: char, m: int)
    requires
        0 <= m <= t.len(),
        forall|k: int| 0 <= k < m ==> #[trigger] t[k] != c,
        m == t.len() || t[m] == c,
    ensures
        char_idx(t, c) == m,
    decreases m,
{
    if m > 0 {
        lemma_char_idx_is(t.skip(1), c, m - 1);
    }
}

/// Find the first occurrence of `c` in `s`, or `s`'s length if absent.
pub fn scan_char(s: &str, c: char) -> (j: usize)
    ensures
        j == char_idx(s@, c),
        j <= s@.len(),
{
    let n = s.unicode_len();
    let mut j: usize = 0;
    while j < n
        invariant
            0 <= j <= n,
            n == s@.len(),
            forall|k: int| 0 <= k < j ==> #[trigger] s@[k] != c,
        decreases n - j,
    {
        if s.get_char(j) == c {
            proof {
                lemma_char_idx_is(s@, c, j as int);
            }
            return j;
        }
        j += 1;
    }
    proof {
        lemma_char_idx_is(s@, c, n as int);
    }
    j
}

// ---------------------------------------------------------------------------
// Fixed-point decimals
// ---------------------------------------------------------------------------
/// Value in hundredths of a fractional part of one or two digits.
pub open spec fn frac2_val(fp: Seq<char>) -> nat {
    if fp.len() == 1 {
        dec_val(fp) * 10
    } else {
        dec_val(fp)
    }
}

/// Whether `t` is a decimal numeral `digits['.'digits]` with at most two
/// fractional digits whose value in hundredths fits a `u64`.
pub open spec fn fixed2_ok(t: Seq<char>) -> bool {
    let d = char_idx(t, '.') as int;
    if d == t.len() {
        is_digits(t) && dec_val(t) * 100 <= u64::MAX
    } else {
        is_digits(t.take(d)) && is_digits(t.skip(d + 1)) && t.skip(d + 1).len() <= 2 && dec_val(
            t.take(d),
        ) * 100 + frac2_val(t.skip(d + 1)) <= u64::MAX
    }
}

/// The value of such a numeral, in hundredths.
pub open spec fn fixed2_val(t: Seq<char>) -> nat {
    let d = char_idx(t, '.') as int;
    if d == t.len() {
        dec_val(t) * 100
    } else {
        dec_val(t.take(d)) * 100 + frac2_val(t.skip(d + 1))
    }
}

/// Parse a decimal numeral with up to two fractional digits into hundredths,
/// as in `"0.13"` -> `13`.
pub fn parse_fixed2(s: &str) -> (r: Option<u64>)
    ensures
        match r {
            Some(v) => fixed2_ok(s@) && v == fixed2_val(s@),
            None => !fixed2_ok(s@),
        },
{
    let n = s.unicode_len();
    let d = scan_char(s, '.');
    if d == n {
        match parse_u64(s) {
            Some(v) => {
                if v <= u64::MAX / 100 {
                    Some(v * 100)
                } else {
                    proof {
                        assert(dec_val(s@) * 100 > u64::MAX);
                    }
                    None
                }
            },
            None => {
                proof {
                    if is_digits(s@) && dec_val(s@) * 100 <= u64::MAX {
                        assert(dec_val(s@) <= u64::MAX);
                    }
                }
                None
            },
        }
    } else {
        let ip = s.substring_char(0, d);
        let fp = s.substring_char(d + 1, n);
        proof {
            assert(ip@ =~= s@.take(d as int));
            assert(fp@ =~= s@.skip(d as int + 1));
        }
        let fplen = n - (d + 1);
        if fplen == 0 || fplen > 2 {
            return None;
        }
        let iv = match parse_u64(ip) {
            Some(v) => v,
            None => {
                proof {
                    if is_digits(s@.take(d as int)) && dec_val(s@.take(d as int)) * 100
                        + frac2_val(s@.skip(d as int + 1)) <= u64::MAX {
                        assert(dec_val(s@.take(d as int)) <= u64::MAX);
                    }
                }
                return None;
            },
        };
        let fv = match parse_u64(fp) {
            Some(v) => v,
            None => {
                proof {
                    if is_digits(s@.skip(d as int + 1)) {
                        assert(dec_val(s@.skip(d as int + 1)) <= 99) by {
                            lemma_small_dec_val(s@.skip(d as int + 1));
                        }
                    }
                }
                return None;
            },
        };
        let scaled: u64 = if fplen == 1 {
            proof {
                lemma_small_dec_val(fp@);
            }
            fv * 10
        } else {
            fv
        };
        let total: u128 = iv as u128 * 100 + scaled as u128;
        if total > u64::MAX as u128 {
            None
        } else {
            Some(total as u64)
        }
    }
}

/// A digit string of at most two digits has value at most 99.
proof fn lemma_small_dec_val(t: Seq<char>)
    requires
        is_digits(t),
        t.len() <= 2,
    ensures
        dec_val(t) <= 99,
{
    if t.len() == 1 {
        assert(dec_val(t.drop_last()) == 0);
        assert(digit_val(t.last()) <= 9);
    } else {
        assert(t.drop_last().drop_last().len() == 0);
        assert(t.drop_last().last() == t[0]);
        assert(is_digit(t[0]));
        assert(dec_val(t.drop_last()) == dec_val(t.drop_last().drop_last()) * 10 + digit_val(t[0]));
        assert(dec_val(t.drop_last()) <= 9);
        assert(digit_val(t.last()) <= 9);
    }
}

// ---------------------------------------------------------------------------
// Joining
// ---------------------------------------------------------------------------
/// The words of `ts` joined with single spaces.
pub open spec fn join_spaced(ts: Seq<Seq<char>>) -> Seq<char>
    decreases ts.len(),
{
    if ts.len() == 0 {
        Seq::empty()
    } else if ts.len() == 1 {
        ts[0]
    } else {
        ts[0] + seq![' '] + join_spaced(ts.drop_first())
    }
}

/// Join `words[start..]` with single spaces.
pub fn join_from(words: &Vec<String>, start: usize) -> (r: String)
    requires
        start <= words@.len(),
    ensures
        r@ == join_spaced(views(words@).skip(start as int)),
    decreases words@.len() - start,
{
    if start >= words.len() {
        let r = String::new();
        proof {
            assert(views(words@).skip(start as int) =~= Seq::<Seq<char>>::empty());
        }
        r
    } else if start + 1 == words.len() {
        let r = words[start].clone();
        proof {
            assert(views(words@).skip(start as int).len() == 1);
            assert(views(words@).skip(start as int)[0] == words@[start as int]@);
        }
        r
    } else {
        let mut r = words[start].clone();
        proof {
            reveal_strlit(" ");
        }
        r.append(" ");
        let rest = join_from(words, start + 1);
        r.append(rest.as_str());
        proof {
            let vs = views(words@).skip(start as int);
            assert(vs[0] == words@[start as int]@);
            assert(vs.drop_first() =~= views(words@).skip(start as int + 1));
            assert(" "@ =~= seq![' ']);
            assert(r@ =~= vs[0] + seq![' '] + join_spaced(vs.drop_first()));
        }
        r
    }
}

} // verus!

//! Character-level ground of the wire codec: character classes, whitespace
//! skipping, literal matching, quoted strings and decimal numbers.
//!
//! Wire text is handled as `&[char]` / `Vec<char>`; every executable routine
//! is proved equal to the spec function that defines the grammar.

use vstd::prelude::*;

verus! {

// ---------------------------------------------------------------------------
// Character classes
// ---------------------------------------------------------------------------

/// Whitespace accepted between tokens of the wire envelope.
pub open spec fn is_ws_char(c: char) -> bool {
    c == ' ' || c == '\t' || c == '\n' || c == '\r'
}

/// A character that may stand unescaped inside a JSON string literal.
pub open spec fn is_text_char(c: char) -> bool {
    c != '"' && c != '\\' && (c as u32) >= 0x20
}

/// A piece of text that can be carried verbatim inside a JSON string literal.
pub open spec fn text_wf(s: Seq<char>) -> bool {
    forall|k: int| 0 <= k < s.len() ==> is_text_char(#[trigger] s[k])
}

pub open spec fn is_digit_char(c: char) -> bool {
    0x30 <= (c as u32) && (c as u32) <= 0x39
}

pub open spec fn digit_val(c: char) -> nat
    recommends
        is_digit_char(c),
{
    ((c as u32) - 0x30) as nat
}

// ---------------------------------------------------------------------------
// Whitespace
// ---------------------------------------------------------------------------

/// First position at or after `i` that does not hold whitespace.
pub open spec fn ws_end(s: Seq<char>, i: int) -> int
    recommends
        0 <= i <= s.len(),
    decreases s.len() - i when 0 <= i <= s.len()
{
    if i < s.len() && is_ws_char(s[i]) {
        ws_end(s, i + 1)
    } else {
        i
    }
}

pub proof fn lemma_ws_end_bounds(s: Seq<char>, i: int)
    requires
        0 <= i <= s.len(),
    ensures
        i <= ws_end(s, i) <= s.len(),
    decreases s.len() - i,
{
    if i < s.len() && is_ws_char(s[i]) {
        lemma_ws_end_bounds(s, i + 1);
    }
}

pub fn skip_ws(s: &[char], i: usize) -> (r: usize)
    requires
        i <= s@.len(),
    ensures
        r == ws_end(s@, i as int),
        i <= r <= s@.len(),
    decreases s@.len() - i,
{
    proof {
        lemma_ws_end_bounds(s@, i as int);
    }
    if i < s.len() {
        let c = s[i];
        if c == ' ' || c == '\t' || c == '\n' || c == '\r' {
            return skip_ws(s, i + 1);
        }
    }
    i
}

// ---------------------------------------------------------------------------
// Literal matching
// ---------------------------------------------------------------------------

/// Position just past `l` if the text at `i` starts with `l`.
pub open spec fn lit_end(s: Seq<char>, i: int, l: Seq<char>) -> Option<int> {
    if 0 <= i && i + l.len() <= s.len() && s.subrange(i, i + l.len() as int) == l {
        Some(i + l.len() as int)
    } else {
        None
    }
}

/// Matches the literal `l` at position `i` of `s`.
pub fn match_lit(s: &[char], i: usize, l: &str) -> (r: Option<usize>)
    requires
        i <= s@.len(),
    ensures
        match r {
            Some(e) => lit_end(s@, i as int, l@) == Some(e as int) && i <= e <= s@.len(),
            None => lit_end(s@, i as int, l@) is None,
        },
{
    let n = l.unicode_len();
    let slen = s.len();
    if n > slen - i {
        assert(lit_end(s@, i as int, l@) is None);
        return None;
    }
    let mut j: usize = 0;
    while j < n
        invariant
            0 <= j <= n,
            n == l@.len(),
            slen == s@.len(),
            i + n <= slen,
            forall|k: int| 0 <= k < j ==> s@[i + k] == l@[k],
        decreases n - j,
    {
        if s[i + j] != l.get_char(j) {
            assert(s@.subrange(i as int, i + l@.len() as int) != l@) by {
                assert(s@.subrange(i as int, i + l@.len() as int)[j as int] != l@[j as int]);
            }
            return None;
        }
        j += 1;
    }
    assert(s@.subrange(i as int, i + l@.len() as int) =~= l@);
    Some(i + n)
}

// ---------------------------------------------------------------------------
// Quoted strings
// ---------------------------------------------------------------------------

/// Position of the closing quote when every character from `i` up to it may
/// stand unescaped in a string literal.
pub open spec fn scan_quote(s: Seq<char>, i: int) -> Option<int>
    recommends
        0 <= i <= s.len(),
    decreases s.len() - i when 0 <= i <= s.len()
{
    if i < s.len() {
        if s[i] == '"' {
            Some(i)
        } else if is_text_char(s[i]) {
            scan_quote(s, i + 1)
        } else {
            None
        }
    } else {
        None
    }
}

pub proof fn lemma_scan_quote_props(s: Seq<char>, i: int)
    requires
        0 <= i <= s.len(),
        scan_quote(s, i) is Some,
    ensures
        i <= scan_quote(s, i).unwrap() < s.len(),
        s[scan_quote(s, i).unwrap()] == '"',
        text_wf(s.subrange(i, scan_quote(s, i).unwrap())),
    decreases s.len() - i,
{
    if i < s.len() && s[i] != '"' && is_text_char(s[i]) {
        lemma_scan_quote_props(s, i + 1);
        let e = scan_quote(s, i).unwrap();
        assert forall|k: int| 0 <= k < s.subrange(i, e).len() implies is_text_char(
            #[trigger] s.subrange(i, e)[k],
        ) by {
            if k > 0 {
                assert(s.subrange(i + 1, e)[k - 1] == s.subrange(i, e)[k]);
                assert(is_text_char(s.subrange(i + 1, e)[k - 1]));
            }
        }
    }
}

/// The scan finds exactly the quote that closes a well-formed piece of text.
pub proof fn lemma_scan_quote_of(s: Seq<char>, i: int, e: int)
    requires
        0 <= i <= e < s.len(),
        forall|k: int| i <= k < e ==> is_text_char(#[trigger] s[k]),
        s[e] == '"',
    ensures
        scan_quote(s, i) == Some(e),
    decreases e - i,
{
    if i < e {
        lemma_scan_quote_of(s, i + 1, e);
    }
}

/// A quoted run of unescaped characters: returns the contents and the
/// position just past the closing quote.
pub open spec fn parse_string(s: Seq<char>, i: int) -> Option<(Seq<char>, int)>
    recommends
        0 <= i <= s.len(),
{
    if 0 <= i < s.len() && s[i] == '"' {
        match scan_quote(s, i + 1) {
            Some(e) => Some((s.subrange(i + 1, e), e + 1)),
            None => None,
        }
    } else {
        None
    }
}

fn find_quote(s: &[char], i: usize) -> (r: Option<usize>)
    requires
        i <= s@.len(),
    ensures
        match r {
            Some(e) => scan_quote(s@, i as int) == Some(e as int) && i <= e < s@.len(),
            None => scan_quote(s@, i as int) is None,
        },
    decreases s@.len() - i,
{
    if i < s.len() {
        let c = s[i];
        if c == '"' {
            Some(i)
        } else if c != '\\' && (c as u32) >= 0x20 {
            find_quote(s, i + 1)
        } else {
            None
        }
    } else {
        None
    }
}

pub fn read_string(s: &[char], i: usize) -> (r: Option<(Vec<char>, usize)>)
    requires
        i <= s@.len(),
    ensures
        match r {
            Some(p) => parse_string(s@, i as int) == Some((p.0@, p.1 as int)) && i < p.1
                <= s@.len(),
            None => parse_string(s@, i as int) is None,
        },
{
    let slen = s.len();
    if i >= slen || s[i] != '"' {
        return None;
    }
    let j: usize = match find_quote(s, i + 1) {
        Some(e) => e,
        None => {
            return None;
        },
    };
    assert(scan_quote(s@, i + 1) == Some(j as int));
    let mut v: Vec<char> = Vec::new();
    let mut k: usize = i + 1;
    while k < j
        invariant
            i + 1 <= k <= j <= slen,
            slen == s@.len(),
            v@ == s@.subrange(i + 1, k as int),
        decreases j - k,
    {
        v.push(s[k]);
        k += 1;
        assert(v@ =~= s@.subrange(i + 1, k as int));
    }
    Some((v, j + 1))
}

// ---------------------------------------------------------------------------
// Decimal numbers
// ---------------------------------------------------------------------------

pub open spec fn digit_char(d: nat) -> char
    recommends
        d < 10,
{
    if d == 0 {
        '0'
    } else if d == 1 {
        '1'
    } else if d == 2 {
        '2'
    } else if d == 3 {
        '3'
    } else if d == 4 {
        '4'
    } else if d == 5 {
        '5'
    } else if d == 6 {
        '6'
    } else if d == 7 {
        '7'
    } else if d == 8 {
        '8'
    } else {
        '9'
    }
}

/// Decimal representation of `n`, most significant digit first.
pub open spec fn dec_rep(n: nat) -> Seq<char>
    decreases n,
{
    if n < 10 {
        seq![digit_char(n)]
    } else {
        dec_rep(n / 10).push(digit_char(n % 10))
    }
}

/// Decimal representation of a signed value.
pub open spec fn dec_rep_i64(v: int) -> Seq<char> {
    if v < 0 {
        seq!['-'] + dec_rep((-v) as nat)
    } else {
        dec_rep(v as nat)
    }
}

fn digit_char_exec(d: u64) -> (c: char)
    requires
        d < 10,
    ensures
        c == digit_char(d as nat),
{
    if d == 0 {
        '0'
    } else if d == 1 {
        '1'
    } else if d == 2 {
        '2'
    } else if d == 3 {
        '3'
    } else if d == 4 {
        '4'
    } else if d == 5 {
        '5'
    } else if d == 6 {
        '6'
    } else if d == 7 {
        '7'
    } else if d == 8 {
        '8'
    } else {
        '9'
    }
}

pub fn push_u64_dec(out: &mut Vec<char>, n: u64)
    ensures
        final(out)@ == old(out)@ + dec_rep(n as nat),
    decreases n,
{
    if n >= 10 {
        push_u64_dec(out, n / 10);
    }
    out.push(digit_char_exec(n % 10));
    assert(final(out)@ =~= old(out)@ + dec_rep(n as nat));
}

pub fn push_i64_dec(out: &mut Vec<char>, n: i64)
    ensures
        final(out)@ == old(out)@ + dec_rep_i64(n as int),
    decreases n,
{
    if n < 0 {
        out.push('-');
        let wide: i128 = -(n as i128);
        assert(0 < wide <= 0x8000000000000000);
        push_u64_dec(out, wide as u64);
        assert(final(out)@ =~= old(out)@ + dec_rep_i64(n as int));
    } else {
        push_u64_dec(out, n as u64);
    }
}

/// First position at or after `i` that does not hold a decimal digit.
pub open spec fn digits_end(s: Seq<char>, i: int) -> int
    recommends
        0 <= i <= s.len(),
    decreases s.len() - i when 0 <= i <= s.len()
{
    if i < s.len() && is_digit_char(s[i]) {
        digits_end(s, i + 1)
    } else {
        i
    }
}

pub proof fn lemma_digits_end_props(s: Seq<char>, i: int)
    requires
        0 <= i <= s.len(),
    ensures
        i <= digits_end(s, i) <= s.len(),
        forall|k: int| i <= k < digits_end(s, i) ==> is_digit_char(#[trigger] s[k]),
    decreases s.len() - i,
{
    if i < s.len() && is_digit_char(s[i]) {
        lemma_digits_end_props(s, i + 1);
    }
}

/// The scan stops exactly at the end of a digit run.
pub proof fn lemma_digits_end_of(s: Seq<char>, i: int, e: int)
    requires
        0 <= i <= e <= s.len(),
        forall|k: int| i <= k < e ==> is_digit_char(#[trigger] s[k]),
        e == s.len() || !is_digit_char(s[e]),
    ensures
        digits_end(s, i) == e,
    decreases e - i,
{
    if i < e {
        lemma_digits_end_of(s, i + 1, e);
    }
}

pub open spec fn pow10(k: nat) -> nat
    decreases k,
{
    if k == 0 {
        1
    } else {
        10 * pow10((k - 1) as nat)
    }
}

/// Value of a run of decimal digits, most significant first.
pub open spec fn dec_val(s: Seq<char>) -> nat
    decreases s.len(),
{
    if s.len() == 0 {
        0
    } else {
        dec_val(s.drop_last()) * 10 + digit_val(s.last())
    }
}

pub proof fn lemma_pow10_mono(a: nat, b: nat)
    requires
        a <= b,
    ensures
        pow10(a) <= pow10(b),
        pow10(a) >= 1,
    decreases b,
{
    if b > 0 {
        if a == b {
            lemma_pow10_mono((a - 1) as nat, (b - 1) as nat);
        } else {
            lemma_pow10_mono(a, (b - 1) as nat);
        }
    }
}

pub proof fn lemma_dec_val_bound(s: Seq<char>)
    requires
        forall|k: int| 0 <= k < s.len() ==> is_digit_char(#[trigger] s[k]),
    ensures
        dec_val(s) < pow10(s.len() as nat),
    decreases s.len(),
{
    if s.len() > 0 {
        assert(forall|k: int|
            0 <= k < s.drop_last().len() ==> is_digit_char(#[trigger] s.drop_last()[k]));
        lemma_dec_val_bound(s.drop_last());
        assert(is_digit_char(s.last()));
        assert(digit_val(s.last()) <= 9);
    }
}

/// A run of 1 to 19 digits and its value.
pub open spec fn parse_u64(s: Seq<char>, i: int) -> Option<(nat, int)>
    recommends
        0 <= i <= s.len(),
{
    let e = digits_end(s, i);
    if 1 <= e - i <= 19 {
        Some((dec_val(s.subrange(i, e)), e))
    } else {
        None
    }
}

fn find_digits_end(s: &[char], i: usize) -> (e: usize)
    requires
        i <= s@.len(),
    ensures
        e == digits_end(s@, i as int),
        i <= e <= s@.len(),
    decreases s@.len() - i,
{
    proof {
        lemma_digits_end_props(s@, i as int);
    }
    if i < s.len() {
        let u = s[i] as u32;
        if 0x30 <= u && u <= 0x39 {
            return find_digits_end(s, i + 1);
        }
    }
    i
}

pub fn read_u64(s: &[char], i: usize) -> (r: Option<(u64, usize)>)
    requires
        i <= s@.len(),
    ensures
        match r {
            Some(p) => parse_u64(s@, i as int) == Some((p.0 as nat, p.1 as int)) && i < p.1
                <= s@.len(),
            None => parse_u64(s@, i as int) is None,
        },
{
    let e = find_digits_end(s, i);
    if e == i || e - i > 19 {
        return None;
    }
    proof {
        lemma_digits_end_props(s@, i as int);
    }
    let mut acc: u64 = 0;
    let mut k: usize = i;
    while k < e
        invariant
            i <= k <= e <= s@.len(),
            e - i <= 19,
            e == digits_end(s@, i as int),
            forall|j: int| i <= j < e ==> is_digit_char(#[trigger] s@[j]),
            acc == dec_val(s@.subrange(i as int, k as int)),
            acc < pow10((k - i) as nat),
        decreases e - k,
    {
        proof {
            lemma_pow10_mono((k - i) as nat, 18);
            lemma_pow10_mono(18, 19);
            assert(pow10(19) == 10000000000000000000) by {
                reveal_with_fuel(pow10, 20);
            }
        }
        let u = s[k] as u32;
        assert(0x30 <= u <= 0x39);
        let d: u64 = (u - 0x30) as u64;
        acc = acc * 10 + d;
        k += 1;
        proof {
            let pre = s@.subrange(i as int, k - 1);
            let cur = s@.subrange(i as int, k as int);
            assert(cur.drop_last() =~= pre);
            assert(cur.last() == s@[k - 1]);
        }
    }
    assert(s@.subrange(i as int, e as int) == s@.subrange(i as int, k as int));
    Some((acc, e))
}

/// An optionally signed decimal number that fits in a 64-bit signed integer.
pub open spec fn parse_i64(s: Seq<char>, i: int) -> Option<(int, int)>
    recommends
        0 <= i <= s.len(),
{
    if 0 <= i < s.len() && s[i] == '-' {
        match parse_u64(s, i + 1) {
            Some(p) => if p.0 <= 0x8000000000000000 {
                Some((-(p.0 as int), p.1))
            } else {
                None
            },
            None => None,
        }
    } else {
        match parse_u64(s, i) {
            Some(p) => if p.0 <= 0x7fffffffffffffff {
                Some((p.0 as int, p.1))
            } else {
                None
            },
            None => None,
        }
    }
}

pub fn read_i64(s: &[char], i: usize) -> (r: Option<(i64, usize)>)
    requires
        i <= s@.len(),
    ensures
        match r {
            Some(p) => parse_i64(s@, i as int) == Some((p.0 as int, p.1 as int)) && i < p.1
                <= s@.len(),
            None => parse_i64(s@, i as int) is None,
        },
{
    if i < s.len() && s[i] == '-' {
        match read_u64(s, i + 1) {
            Some(p) => {
                if p.0 <= 0x8000000000000000 {
                    let v: i64 = if p.0 == 0x8000000000000000 {
                        i64::MIN
                    } else {
                        -(p.0 as i64)
                    };
                    Some((v, p.1))
                } else {
                    None
                }
            },
            None => None,
        }
    } else {
        match read_u64(s, i) {
            Some(p) => {
                if p.0 <= 0x7fffffffffffffff {
                    Some((p.0 as i64, p.1))
                } else {
                    None
                }
            },
            None => None,
        }
    }
}

// ---------------------------------------------------------------------------
// Inversion: the decimal reader recovers what the writer produced
// ---------------------------------------------------------------------------

pub proof fn lemma_dec_rep_digits(n: nat)
    ensures
        1 <= dec_rep(n).len(),
        forall|k: int| 0 <= k < dec_rep(n).len() ==> is_digit_char(#[trigger] dec_rep(n)[k]),
    decreases n,
{
    if n >= 10 {
        lemma_dec_rep_digits(n / 10);
    }
}

pub proof fn lemma_dec_rep_len(n: nat, k: nat)
    requires
        n < pow10(k),
        k >= 1,
    ensures
        dec_rep(n).len() <= k,
    decreases n,
{
    if n >= 10 {
        lemma_pow10_mono(1, k);
        assert(k >= 2) by {
            if k < 2 {
                assert(pow10(k) <= 10) by {
                    reveal_with_fuel(pow10, 2);
                }
            }
        }
        assert(n / 10 < pow10((k - 1) as nat));
        lemma_dec_rep_len(n / 10, (k - 1) as nat);
    }
}

pub proof fn lemma_dec_val_of_rep(n: nat)
    ensures
        dec_val(dec_rep(n)) == n,
    decreases n,
{
    if n < 10 {
        assert(dec_rep(n) == seq![digit_char(n)]);
        assert(dec_rep(n).drop_last() =~= Seq::<char>::empty());
        assert(dec_val(Seq::<char>::empty()) == 0);
        assert(digit_val(digit_char(n)) == n);
    } else {
        lemma_dec_val_of_rep(n / 10);
        assert(dec_rep(n).drop_last() =~= dec_rep(n / 10));
        assert(dec_rep(n).last() == digit_char(n % 10));
        assert(digit_val(digit_char(n % 10)) == n % 10);
    }
}

/// Parsing the written representation of `n` followed by anything that does
/// not begin with a digit recovers `n` exactly.
pub proof fn lemma_parse_u64_of_rep(n: u64, s: Seq<char>, i: int)
    requires
        0 <= i,
        i + dec_rep(n as nat).len() <= s.len(),
        s.subrange(i, i + dec_rep(n as nat).len() as int) == dec_rep(n as nat),
        n < 0x8AC7230489E80000,
        i + dec_rep(n as nat).len() == s.len() || !is_digit_char(
            s[i + dec_rep(n as nat).len() as int],
        ),
    ensures
        parse_u64(s, i) == Some((n as nat, i + dec_rep(n as nat).len() as int)),
{
    let rep = dec_rep(n as nat);
    let e = i + rep.len() as int;
    lemma_dec_rep_digits(n as nat);
    assert(pow10(19) == 10000000000000000000) by {
        reveal_with_fuel(pow10, 20);
    }
    lemma_dec_rep_len(n as nat, 19);
    assert forall|k: int| i <= k < e implies is_digit_char(#[trigger] s[k]) by {
        assert(s[k] == rep[k - i]);
    }
    lemma_digits_end_of(s, i, e);
    lemma_dec_val_of_rep(n as nat);
}

} // verus!


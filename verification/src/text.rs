//! Character-level string helpers shared by every module: reading a `&str`
//! as characters, building `String`s, decimal rendering and parsing.

use vstd::prelude::*;
use vstd::string::*;

verus! {

/// Decimal digit character for `d` (which must be below ten).
pub open spec fn digit_char(d: nat) -> char {
    if d == 0 { '0' }
    else if d == 1 { '1' }
    else if d == 2 { '2' }
    else if d == 3 { '3' }
    else if d == 4 { '4' }
    else if d == 5 { '5' }
    else if d == 6 { '6' }
    else if d == 7 { '7' }
    else if d == 8 { '8' }
    else { '9' }
}

/// The canonical decimal rendering of `n`: no sign, no leading zeros.
pub open spec fn decimal(n: nat) -> Seq<char>
    decreases n,
{
    if n < 10 {
        seq![digit_char(n)]
    } else {
        decimal(n / 10).push(digit_char(n % 10))
    }
}

/// Whether `c` is an ASCII decimal digit.
pub open spec fn is_digit(c: char) -> bool {
    '0' <= c && c <= '9'
}

/// The numeric value of the ASCII digit `c`.
pub open spec fn digit_value(c: char) -> nat {
    ((c as u32) - ('0' as u32)) as nat
}

/// Whether every character of `s` is an ASCII digit.
pub open spec fn all_digits(s: Seq<char>) -> bool {
    forall|i: int| 0 <= i < s.len() ==> is_digit(#[trigger] s[i])
}

/// The value of a string of digits read in base ten.
pub open spec fn digits_value(s: Seq<char>) -> nat
    decreases s.len(),
{
    if s.len() == 0 {
        0
    } else {
        digits_value(s.drop_last()) * 10 + digit_value(s.last())
    }
}

/// The digits that an unsigned number's text carries: an optional leading
/// `+` is part of the accepted syntax and is not a digit.
pub open spec fn unsigned_body(s: Seq<char>) -> Seq<char> {
    if s.len() > 0 && s[0] == '+' { s.drop_first() } else { s }
}

/// The value of an unsigned decimal text when it is well formed (non-empty
/// digits after an optional `+`), with no bound applied.
pub open spec fn unsigned_text_value(s: Seq<char>) -> Option<nat> {
    let body = unsigned_body(s);
    if body.len() > 0 && all_digits(body) {
        Some(digits_value(body))
    } else {
        None
    }
}

/// `str::parse::<u64>` as a value: the text's number when it is well formed
/// and fits in a `u64`.
pub open spec fn parse_u64_spec(s: Seq<char>) -> Option<u64> {
    match unsigned_text_value(s) {
        Some(v) => if v <= u64::MAX { Some(v as u64) } else { None },
        None => None,
    }
}

/// `str::parse::<i64>`: an optional sign (`+` or `-`) then at least one digit,
/// and the value must fit in an `i64`.
pub open spec fn parse_i64_spec(s: Seq<char>) -> Option<i64> {
    if s.len() > 0 && s[0] == '-' {
        let body = s.drop_first();
        if body.len() > 0 && all_digits(body) && digits_value(body) <= 0x8000_0000_0000_0000 {
            Some((0 - digits_value(body)) as i64)
        } else {
            None
        }
    } else {
        match unsigned_text_value(s) {
            Some(v) => if v <= i64::MAX { Some(v as i64) } else { None },
            None => None,
        }
    }
}

/// Read a string slice as its characters.
pub fn chars_of(s: &str) -> (v: Vec<char>)
    ensures
        v@ == s@,
{
    let n = s.unicode_len();
    let mut v: Vec<char> = Vec::new();
    let mut i: usize = 0;
    while i < n
        invariant
            n == s@.len(),
            i <= n,
            v@ == s@.subrange(0, i as int),
        decreases n - i,
    {
        let c = s.get_char(i);
        v.push(c);
        i = i + 1;
        assert(v@ =~= s@.subrange(0, i as int));
    }
    assert(v@ =~= s@);
    v
}

/// Whether a sequence of characters spells exactly the text `lit`.
pub fn chars_eq(a: &[char], lit: &str) -> (r: bool)
    ensures
        r == (a@ == lit@),
{
    let n = lit.unicode_len();
    if a.len() != n {
        return false;
    }
    let mut i: usize = 0;
    while i < n
        invariant
            n == lit@.len(),
            a@.len() == n,
            i <= n,
            forall|j: int| 0 <= j < i ==> a@[j] == lit@[j],
        decreases n - i,
    {
        if a[i] != lit.get_char(i) {
            return false;
        }
        i = i + 1;
    }
    assert(a@ =~= lit@);
    true
}

/// Whether `a` begins with the text `lit`.
pub fn has_prefix(a: &[char], lit: &str) -> (r: bool)
    ensures
        r == (a@.len() >= lit@.len() && a@.subrange(0, lit@.len() as int) == lit@),
{
    let n = lit.unicode_len();
    if a.len() < n {
        return false;
    }
    let mut i: usize = 0;
    while i < n
        invariant
            n == lit@.len(),
            a@.len() >= n,
            i <= n,
            forall|j: int| 0 <= j < i ==> a@[j] == lit@[j],
        decreases n - i,
    {
        if a[i] != lit.get_char(i) {
            assert(a@.subrange(0, n as int)[i as int] != lit@[i as int]);
            return false;
        }
        i = i + 1;
    }
    assert(a@.subrange(0, n as int) =~= lit@);
    true
}

/// Whether `a` ends with the text `lit`.
pub fn has_suffix(a: &[char], lit: &str) -> (r: bool)
    ensures
        r == (a@.len() >= lit@.len() && a@.subrange(a@.len() - lit@.len(), a@.len() as int) == lit@),
{
    let n = lit.unicode_len();
    let m = a.len();
    if m < n {
        return false;
    }
    let off = m - n;
    let mut i: usize = 0;
    while i < n
        invariant
            n == lit@.len(),
            m == a@.len(),
            off == m - n,
            i <= n,
            forall|j: int| 0 <= j < i ==> a@[off + j] == lit@[j],
        decreases n - i,
    {
        if a[off + i] != lit.get_char(i) {
            assert(a@.subrange(off as int, m as int)[i as int] != lit@[i as int]);
            return false;
        }
        i = i + 1;
    }
    assert(a@.subrange(off as int, m as int) =~= lit@);
    true
}

/// The characters `a[from..to]` as a new vector.
pub fn sub_chars(a: &[char], from: usize, to: usize) -> (r: Vec<char>)
    requires
        from <= to <= a@.len(),
    ensures
        r@ == a@.subrange(from as int, to as int),
{
    let mut r: Vec<char> = Vec::new();
    let mut i: usize = from;
    while i < to
        invariant
            from <= i <= to <= a@.len(),
            r@ == a@.subrange(from as int, i as int),
        decreases to - i,
    {
        r.push(a[i]);
        i = i + 1;
        assert(r@ =~= a@.subrange(from as int, i as int));
    }
    r
}

/// Whether `t` occurs in `s` at position `i`.
pub open spec fn occurs_at(s: Seq<char>, t: Seq<char>, i: int) -> bool {
    0 <= i && i + t.len() <= s.len() && s.subrange(i, i + t.len()) == t
}

/// Whether `t` occurs anywhere in `s`.
pub open spec fn contains_text(s: Seq<char>, t: Seq<char>) -> bool {
    exists|i: int| occurs_at(s, t, i)
}

fn matches_at(a: &[char], lit: &[char], off: usize) -> (r: bool)
    requires
        off + lit@.len() <= a@.len(),
    ensures
        r == (a@.subrange(off as int, off + lit@.len()) == lit@),
{
    let mut i: usize = 0;
    let alen = a.len();
    while i < lit.len()
        invariant
            alen == a@.len(),
            off + lit@.len() <= a@.len(),
            i <= lit@.len(),
            forall|j: int| 0 <= j < i ==> a@[off + j] == lit@[j],
        decreases lit.len() - i,
    {
        assert(off + i < a@.len());
        if a[off + i] != lit[i] {
            assert(a@.subrange(off as int, off + lit@.len())[i as int] != lit@[i as int]);
            return false;
        }
        i = i + 1;
    }
    assert(a@.subrange(off as int, off + lit@.len()) =~= lit@);
    true
}

/// Whether the text `lit` occurs anywhere in `a`.
pub fn contains_str(a: &[char], lit: &str) -> (r: bool)
    ensures
        r == contains_text(a@, lit@),
{
    let t = chars_of(lit);
    let n = t.len();
    if n > a.len() {
        assert forall|i: int| !occurs_at(a@, lit@, i) by {}
        return false;
    }
    if n == 0 {
        assert(a@.subrange(0, 0) =~= lit@);
        assert(occurs_at(a@, lit@, 0));
        return true;
    }
    let mut off: usize = 0;
    while off <= a.len() - n
        invariant
            n == lit@.len(),
            t@ == lit@,
            0 < n <= a@.len(),
            off <= a@.len() - n + 1,
            forall|j: int| 0 <= j < off ==> !#[trigger] occurs_at(a@, lit@, j),
        decreases a.len() + 1 - off,
    {
        if matches_at(a, t.as_slice(), off) {
            assert(occurs_at(a@, lit@, off as int));
            return true;
        }
        off = off + 1;
    }
    assert forall|i: int| !occurs_at(a@, lit@, i) by {
        if 0 <= i && i < off {
        }
    }
    false
}

/// Whether two string slices hold the same text.
pub fn str_eq(a: &str, b: &str) -> (r: bool)
    ensures
        r == (a@ == b@),
{
    let ac = chars_of(a);
    chars_eq(ac.as_slice(), b)
}

/// Calls `String::push`, which (as its documentation says) appends the
/// character to the end of the string; the contract claims exactly that.
#[verifier::external_body]
pub(crate) fn push_char(s: &mut String, c: char)
    ensures
        final(s)@ == old(s)@.push(c),
{
    s.push(c);
}

/// Append a run of characters to a `String`.
pub fn push_chars(s: &mut String, cs: &[char])
    ensures
        final(s)@ == old(s)@ + cs@,
{
    let ghost start = s@;
    let mut i: usize = 0;
    while i < cs.len()
        invariant
            i <= cs@.len(),
            s@ == start + cs@.subrange(0, i as int),
        decreases cs.len() - i,
    {
        push_char(s, cs[i]);
        i = i + 1;
        assert(s@ =~= start + cs@.subrange(0, i as int));
    }
    assert(cs@.subrange(0, cs@.len() as int) =~= cs@);
}

/// A `String` holding exactly the given characters.
pub fn string_of(cs: &[char]) -> (r: String)
    ensures
        r@ == cs@,
{
    let mut r = String::new();
    push_chars(&mut r, cs);
    assert(r@ =~= cs@);
    r
}

/// A fresh copy of a string slice.
pub fn owned(s: &str) -> (r: String)
    ensures
        r@ == s@,
{
    let mut r = String::new();
    r.append(s);
    assert(r@ =~= s@);
    r
}

/// The digit character for a value below ten.
pub fn digit_of(d: u8) -> (c: char)
    requires
        d < 10,
    ensures
        c == digit_char(d as nat),
{
    if d == 0 { '0' }
    else if d == 1 { '1' }
    else if d == 2 { '2' }
    else if d == 3 { '3' }
    else if d == 4 { '4' }
    else if d == 5 { '5' }
    else if d == 6 { '6' }
    else if d == 7 { '7' }
    else if d == 8 { '8' }
    else { '9' }
}

/// Append the decimal rendering of `n`.
pub fn push_decimal(s: &mut String, n: u128)
    ensures
        final(s)@ == old(s)@ + decimal(n as nat),
    decreases n,
{
    if n >= 10 {
        push_decimal(s, n / 10);
    }
    let d = (n % 10) as u8;
    push_char(s, digit_of(d));
    assert(n >= 10 ==> decimal(n as nat) == decimal((n / 10) as nat).push(digit_char((n % 10) as nat)));
    assert(final(s)@ =~= old(s)@ + decimal(n as nat));
}

/// The decimal rendering of `n` as a new `String`.
pub fn decimal_text(n: u128) -> (r: String)
    ensures
        r@ == decimal(n as nat),
{
    let mut r = String::new();
    push_decimal(&mut r, n);
    assert(r@ =~= decimal(n as nat));
    r
}

proof fn lemma_digits_value_push(s: Seq<char>, c: char)
    ensures
        digits_value(s.push(c)) == digits_value(s) * 10 + digit_value(c),
{
    assert(s.push(c).drop_last() =~= s);
}

/// Parse the digits `cs[from..]` as an unsigned number no greater than
/// `limit`; `None` when a non-digit appears, the run is empty, or the value
/// exceeds `limit`.
fn parse_digits_bounded(cs: &[char], from: usize, limit: u128) -> (r: Option<u128>)
    requires
        from <= cs@.len(),
        limit >= 9,
    ensures
        ({
            let body = cs@.subrange(from as int, cs@.len() as int);
            match r {
                Some(v) => body.len() > 0 && all_digits(body) && v == digits_value(body)
                    && v <= limit,
                None => !(body.len() > 0 && all_digits(body) && digits_value(body) <= limit),
            }
        }),
{
    let ghost body = cs@.subrange(from as int, cs@.len() as int);
    if from == cs.len() {
        return None;
    }
    let mut value: u128 = 0;
    let mut i: usize = from;
    while i < cs.len()
        invariant
            from <= i <= cs@.len(),
            body == cs@.subrange(from as int, cs@.len() as int),
            all_digits(cs@.subrange(from as int, i as int)),
            value == digits_value(cs@.subrange(from as int, i as int)),
            value <= limit,
            limit >= 9,
        decreases cs.len() - i,
    {
        let c = cs[i];
        if !('0' <= c && c <= '9') {
            proof {
                let k = i - from;
                assert(body[k] == c);
            }
            return None;
        }
        let d = (c as u32 - '0' as u32) as u128;
        proof {
            assert(cs@.subrange(from as int, i + 1) =~= cs@.subrange(from as int, i as int).push(c));
            lemma_digits_value_push(cs@.subrange(from as int, i as int), c);
        }
        if value > (limit - d) / 10 {
            proof {
                // value * 10 + d > limit, and every longer digit run only grows.
                assert(value * 10 + d > limit) by (nonlinear_arith)
                    requires value > (limit - d) / 10, d <= 9, limit >= 9;
                let k = (i - from) as int + 1;
                assert(body.subrange(0, k) =~= cs@.subrange(from as int, i + 1));
                lemma_digits_prefix_grows(body, k);
            }
            return None;
        }
        proof {
            assert(value * 10 + d <= limit) by (nonlinear_arith)
                requires value <= (limit - d) / 10, d <= 9, limit >= 9;
        }
        value = value * 10 + d;
        i = i + 1;
    }
    assert(cs@.subrange(from as int, i as int) =~= body);
    Some(value)
}

/// A digit run's value is at least the value of any of its prefixes.
proof fn lemma_digits_prefix_grows(s: Seq<char>, k: int)
    requires
        0 <= k <= s.len(),
        all_digits(s.subrange(0, k)),
    ensures
        all_digits(s) ==> digits_value(s) >= digits_value(s.subrange(0, k)),
    decreases s.len() - k,
{
    if k < s.len() && all_digits(s) {
        assert(all_digits(s.subrange(0, k + 1)));
        lemma_digits_prefix_grows(s, k + 1);
        assert(s.subrange(0, k + 1).drop_last() =~= s.subrange(0, k));
    }
    if k == s.len() {
        assert(s.subrange(0, k) =~= s);
    }
}

/// `str::parse::<u64>` on a character sequence.
pub fn parse_u64(cs: &[char]) -> (r: Option<u64>)
    ensures
        r == parse_u64_spec(cs@),
{
    let from: usize = if cs.len() > 0 && cs[0] == '+' { 1 } else { 0 };
    proof {
        assert(unsigned_body(cs@) =~= cs@.subrange(from as int, cs@.len() as int));
    }
    match parse_digits_bounded(cs, from, u64::MAX as u128) {
        Some(v) => Some(v as u64),
        None => None,
    }
}

/// `str::parse::<i64>` on a character sequence.
pub fn parse_i64(cs: &[char]) -> (r: Option<i64>)
    ensures
        r == parse_i64_spec(cs@),
{
    if cs.len() > 0 && cs[0] == '-' {
        proof {
            assert(cs@.drop_first() =~= cs@.subrange(1, cs@.len() as int));
        }
        match parse_digits_bounded(cs, 1, 0x8000_0000_0000_0000u128) {
            Some(v) => {
                let r: i128 = 0i128 - (v as i128);
                Some(r as i64)
            },
            None => None,
        }
    } else {
        let from: usize = if cs.len() > 0 && cs[0] == '+' { 1 } else { 0 };
        proof {
            assert(unsigned_body(cs@) =~= cs@.subrange(from as int, cs@.len() as int));
        }
        match parse_digits_bounded(cs, from, i64::MAX as u128) {
            Some(v) => Some(v as i64),
            None => None,
        }
    }
}

/// Strict lexicographic order on texts, character by character (for UTF-8
/// text this is also the byte order of `str`'s `Ord`).
pub open spec fn text_lt(a: Seq<char>, b: Seq<char>) -> bool
    decreases a.len(),
{
    if a.len() == 0 {
        b.len() > 0
    } else if b.len() == 0 {
        false
    } else if a[0] != b[0] {
        a[0] < b[0]
    } else {
        text_lt(a.drop_first(), b.drop_first())
    }
}

pub proof fn lemma_text_lt_irreflexive(a: Seq<char>)
    ensures
        !text_lt(a, a),
    decreases a.len(),
{
    if a.len() > 0 {
        lemma_text_lt_irreflexive(a.drop_first());
    }
}

pub proof fn lemma_text_lt_transitive(a: Seq<char>, b: Seq<char>, c: Seq<char>)
    requires
        text_lt(a, b),
        text_lt(b, c),
    ensures
        text_lt(a, c),
    decreases a.len(),
{
    if a.len() > 0 && b.len() > 0 && c.len() > 0 && a[0] == b[0] && b[0] == c[0] {
        lemma_text_lt_transitive(a.drop_first(), b.drop_first(), c.drop_first());
    }
}

pub proof fn lemma_text_lt_total(a: Seq<char>, b: Seq<char>)
    requires
        a != b,
    ensures
        text_lt(a, b) || text_lt(b, a),
    decreases a.len(),
{
    if a.len() > 0 && b.len() > 0 && a[0] == b[0] {
        if a.drop_first() == b.drop_first() {
            assert(a =~= seq![a[0]] + a.drop_first());
            assert(b =~= seq![b[0]] + b.drop_first());
        }
        lemma_text_lt_total(a.drop_first(), b.drop_first());
    } else if a.len() == 0 && b.len() == 0 {
        assert(a =~= b);
    }
}


pub fn text_less(a: &[char], b: &[char]) -> (r: bool)
    ensures
        r == text_lt(a@, b@),
{
    let mut i: usize = 0;
    assert(a@.skip(0) =~= a@);
    assert(b@.skip(0) =~= b@);
    while i < a.len() && i < b.len()
        invariant
            i <= a@.len(),
            i <= b@.len(),
            text_lt(a@, b@) == text_lt(a@.skip(i as int), b@.skip(i as int)),
        decreases a.len() - i,
    {
        assert(a@.skip(i as int)[0] == a@[i as int]);
        assert(b@.skip(i as int)[0] == b@[i as int]);
        if a[i] != b[i] {
            return a[i] < b[i];
        }
        assert(a@.skip(i as int).drop_first() =~= a@.skip(i + 1));
        assert(b@.skip(i as int).drop_first() =~= b@.skip(i + 1));
        i = i + 1;
    }
    b.len() > i
}


/// The pieces of `s` between occurrences of `sep` (one piece when `s` has
/// none; empty pieces are kept).
pub open spec fn split_on(s: Seq<char>, sep: char) -> Seq<Seq<char>>
    decreases s.len(),
{
    if s.len() == 0 {
        seq![Seq::empty()]
    } else {
        let p = split_on(s.drop_last(), sep);
        if s.last() == sep {
            p.push(Seq::empty())
        } else {
            p.update(p.len() - 1, p.last().push(s.last()))
        }
    }
}

} // verus!

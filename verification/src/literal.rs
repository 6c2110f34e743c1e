//! Reading numeric literals: the decimal `i16` syntax accepted by `str::parse::<i16>`
//! and the decimal floating-point syntax accepted by `str::parse::<f64>`.

use vstd::prelude::*;
use crate::text::{chars_of, dec_int, dec_nat, digit_char};

verus! {

/// Whether `c` is an ASCII decimal digit.
pub open spec fn is_dec_digit(c: char) -> bool {
    '0' <= c <= '9'
}

/// Whether every character of `d` is an ASCII decimal digit.
pub open spec fn all_digits(d: Seq<char>) -> bool {
    forall|i: int| 0 <= i < d.len() ==> is_dec_digit(#[trigger] d[i])
}

/// The value of a string of decimal digits.
pub open spec fn digits_value(d: Seq<char>) -> int
    decreases d.len(),
{
    if d.len() == 0 {
        0
    } else {
        digits_value(d.drop_last()) * 10 + ((d.last() as int) - ('0' as int))
    }
}

/// The digits after an optional leading `+` or `-`.
pub open spec fn unsigned_part(s: Seq<char>) -> Seq<char> {
    if s.len() > 0 && (s[0] == '-' || s[0] == '+') {
        s.drop_first()
    } else {
        s
    }
}

/// The result of `str::parse::<i16>`: an optional `+` or `-` sign followed by
/// at least one decimal digit, with a value in the range of `i16`.
pub open spec fn parse_i16_spec(s: Seq<char>) -> Option<i16> {
    let neg = s.len() > 0 && s[0] == '-';
    let d = unsigned_part(s);
    if d.len() == 0 || !all_digits(d) {
        None
    } else {
        let v = if neg {
            -digits_value(d)
        } else {
            digits_value(d)
        };
        if -32768 <= v <= 32767 {
            Some(v as i16)
        } else {
            None
        }
    }
}

proof fn lemma_digits_value_nonneg(d: Seq<char>)
    requires
        all_digits(d),
    ensures
        digits_value(d) >= 0,
    decreases d.len(),
{
    if d.len() > 0 {
        lemma_digits_value_nonneg(d.drop_last());
    }
}

/// A prefix of a digit string has a value no greater than the whole string.
proof fn lemma_digits_value_prefix(d: Seq<char>, k: int)
    requires
        0 <= k <= d.len(),
        all_digits(d),
    ensures
        digits_value(d.subrange(0, k)) <= digits_value(d),
    decreases d.len() - k,
{
    if k < d.len() {
        lemma_digits_value_prefix(d, k + 1);
        assert(d.subrange(0, k + 1).drop_last() =~= d.subrange(0, k));
        assert(all_digits(d.subrange(0, k)));
        lemma_digits_value_nonneg(d.subrange(0, k));
    } else {
        assert(d.subrange(0, k) =~= d);
    }
}

/// `str::parse::<i16>` on decimal text.
pub fn parse_i16(s: &str) -> (r: Option<i16>)
    ensures
        r == parse_i16_spec(s@),
{
    let v = chars_of(s);
    let n = v.len();
    let mut a: usize = 0;
    let mut neg = false;
    if n > 0 {
        if v[0] == '-' {
            neg = true;
            a = 1;
        } else if v[0] == '+' {
            a = 1;
        }
    }
    let ghost d = unsigned_part(s@);
    assert(d =~= v@.subrange(a as int, n as int));
    if a == n {
        return None;
    }
    let mut value: i32 = 0;
    let mut i = a;
    while i < n
        invariant
            a <= i <= n,
            n == v@.len(),
            v@ == s@,
            d == v@.subrange(a as int, n as int),
            d == unsigned_part(s@),
            all_digits(v@.subrange(a as int, i as int)),
            value == digits_value(v@.subrange(a as int, i as int)),
            0 <= value <= 32768,
        decreases n - i,
    {
        let c = v[i];
        if !('0' <= c && c <= '9') {
            assert(d[i - a] == c);
            assert(!is_dec_digit(d[i - a]));
            return None;
        }
        let dv = (c as u32 - '0' as u32) as i32;
        let ghost next = v@.subrange(a as int, i + 1);
        assert(next.drop_last() =~= v@.subrange(a as int, i as int));
        assert(all_digits(next));
        if value > 3276 || (value == 3276 && dv > 8) {
            proof {
                if all_digits(d) {
                    lemma_digits_value_prefix(d, i + 1 - a);
                    assert(d.subrange(0, i + 1 - a) =~= next);
                }
            }
            return None;
        }
        value = value * 10 + dv;
        i += 1;
    }
    assert(v@.subrange(a as int, i as int) =~= d);
    if neg {
        Some((0 - value) as i16)
    } else if value <= 32767 {
        Some(value as i16)
    } else {
        None
    }
}

/// The decimal text of a natural number is a non-empty string of digits whose value is that number.
proof fn lemma_dec_nat_digits(n: nat)
    ensures
        dec_nat(n).len() >= 1,
        all_digits(dec_nat(n)),
        digits_value(dec_nat(n)) == n,
    decreases n,
{
    if n < 10 {
        assert(digit_char(n) as int == 48 + n);
        assert(('0' as int) == 48);
        assert(dec_nat(n).drop_last() =~= Seq::<char>::empty());
        assert(dec_nat(n).last() == digit_char(n));
        assert(digits_value(dec_nat(n)) == digits_value(Seq::<char>::empty()) * 10 + (48 + n - 48));
    } else {
        lemma_dec_nat_digits(n / 10);
        let d = dec_nat(n);
        assert(d.drop_last() =~= dec_nat(n / 10));
        assert(digit_char(n % 10) as int == 48 + n % 10);
        assert(n == (n / 10) * 10 + n % 10) by (nonlinear_arith);
        assert(('0' as int) == 48);
        assert(d.last() == digit_char(n % 10));
        assert(digits_value(d) == digits_value(dec_nat(n / 10)) * 10 + (48 + n % 10 - 48));
        assert forall|i: int| 0 <= i < d.len() implies is_dec_digit(#[trigger] d[i]) by {
            if i < d.len() - 1 {
                assert(d[i] == dec_nat(n / 10)[i]);
            }
        }
    }
}

/// Law: different natural numbers have different decimal texts.
pub proof fn law_dec_nat_injective(a: nat, b: nat)
    ensures
        dec_nat(a) == dec_nat(b) ==> a == b,
{
    lemma_dec_nat_digits(a);
    lemma_dec_nat_digits(b);
}

/// Law: the decimal text of any `i16` value, as the library writes it (with a
/// leading `-` when negative), reads back as that same value.
pub proof fn law_int_text_round_trip(v: i16)
    ensures
        parse_i16_spec(dec_int(v as int)) == Some(v),
{
    if v < 0 {
        let m = (-(v as int)) as nat;
        lemma_dec_nat_digits(m);
        let s = dec_int(v as int);
        assert(unsigned_part(s) =~= dec_nat(m));
    } else {
        let m = v as nat;
        lemma_dec_nat_digits(m);
        let s = dec_int(v as int);
        assert(is_dec_digit(s[0]));
        assert(unsigned_part(s) =~= s);
    }
}

/// ASCII lower-casing of a character.
pub open spec fn lower(c: char) -> char {
    if 'A' <= c <= 'Z' {
        ((c as u32) + 32) as char
    } else {
        c
    }
}

/// ASCII lower-casing of a string.
pub open spec fn lower_str(s: Seq<char>) -> Seq<char> {
    s.map_values(|c: char| lower(c))
}

/// The index of the first occurrence of `c` in `s`, or `s.len()` when absent.
pub open spec fn first_index(s: Seq<char>, c: char) -> int
    decreases s.len(),
{
    if s.len() == 0 {
        0
    } else if s[0] == c {
        0
    } else {
        1 + first_index(s.drop_first(), c)
    }
}

/// A number's digits: `Digit+`, `Digit+ '.' Digit*` or `Digit* '.' Digit+`.
pub open spec fn valid_mantissa(m: Seq<char>) -> bool {
    let k = first_index(m, '.');
    if k == m.len() {
        m.len() > 0 && all_digits(m)
    } else {
        &&& all_digits(m.subrange(0, k))
        &&& all_digits(m.subrange(k + 1, m.len() as int))
        &&& m.len() >= 2
    }
}

/// An exponent's digits: `Sign? Digit+`.
pub open spec fn valid_exponent(e: Seq<char>) -> bool {
    let d = unsigned_part(e);
    d.len() > 0 && all_digits(d)
}

/// The syntax accepted by `str::parse::<f64>` (as documented for `f64::from_str`,
/// letters matched without regard to case): an optional sign followed by `inf`,
/// `infinity`, `nan`, or a number `(Digit+ | Digit+ '.' Digit* | Digit* '.' Digit+)`
/// with an optional exponent `'e' Sign? Digit+`.
pub open spec fn valid_float_text(s: Seq<char>) -> bool {
    let t = lower_str(unsigned_part(s));
    let k = first_index(t, 'e');
    ||| t == "inf"@
    ||| t == "infinity"@
    ||| t == "nan"@
    ||| (k == t.len() && valid_mantissa(t))
    ||| (k < t.len() && valid_mantissa(t.subrange(0, k)) && valid_exponent(t.subrange(k + 1, t.len() as int)))
}

proof fn lemma_first_index_bounds(s: Seq<char>, c: char)
    ensures
        0 <= first_index(s, c) <= s.len(),
        first_index(s, c) < s.len() ==> s[first_index(s, c)] == c,
        forall|i: int| 0 <= i < first_index(s, c) ==> s[i] != c,
    decreases s.len(),
{
    if s.len() > 0 && s[0] != c {
        lemma_first_index_bounds(s.drop_first(), c);
        assert forall|i: int| 0 <= i < first_index(s, c) implies s[i] != c by {
            if i > 0 {
                assert(s[i] == s.drop_first()[i - 1]);
            }
        }
    }
}

proof fn lemma_first_index_char(s: Seq<char>, c: char, k: int)
    requires
        0 <= k <= s.len(),
        k < s.len() ==> s[k] == c,
        forall|i: int| 0 <= i < k ==> s[i] != c,
    ensures
        first_index(s, c) == k,
    decreases s.len(),
{
    if s.len() > 0 && s[0] != c {
        assert forall|i: int| 0 <= i < k - 1 implies s.drop_first()[i] != c by {
            assert(s.drop_first()[i] == s[i + 1]);
        }
        lemma_first_index_char(s.drop_first(), c, k - 1);
    }
}

/// The first index in `v[lo..hi]` (relative to `lo`) holding `c`, or `hi - lo`.
fn find_char(v: &Vec<char>, lo: usize, hi: usize, c: char) -> (r: usize)
    requires
        lo <= hi <= v@.len(),
    ensures
        r == first_index(v@.subrange(lo as int, hi as int), c),
        r <= hi - lo,
{
    let mut i = lo;
    while i < hi
        invariant
            lo <= i <= hi,
            hi <= v@.len(),
            forall|j: int| lo <= j < i ==> v@[j] != c,
        decreases hi - i,
    {
        if v[i] == c {
            proof {
                lemma_first_index_char(v@.subrange(lo as int, hi as int), c, i - lo);
            }
            return i - lo;
        }
        i += 1;
    }
    proof {
        lemma_first_index_char(v@.subrange(lo as int, hi as int), c, hi - lo);
    }
    hi - lo
}

/// Whether `v[lo..hi]` consists of ASCII digits only.
fn digits_only(v: &Vec<char>, lo: usize, hi: usize) -> (r: bool)
    requires
        lo <= hi <= v@.len(),
    ensures
        r == all_digits(v@.subrange(lo as int, hi as int)),
{
    let mut i = lo;
    while i < hi
        invariant
            lo <= i <= hi,
            hi <= v@.len(),
            forall|j: int| lo <= j < i ==> is_dec_digit(v@[j]),
        decreases hi - i,
    {
        if !('0' <= v[i] && v[i] <= '9') {
            assert(v@.subrange(lo as int, hi as int)[i - lo] == v@[i as int]);
            return false;
        }
        i += 1;
    }
    assert forall|j: int| 0 <= j < hi - lo implies is_dec_digit(#[trigger] v@.subrange(lo as int, hi as int)[j]) by {
        assert(v@.subrange(lo as int, hi as int)[j] == v@[lo + j]);
    }
    true
}

/// Whether `v[lo..hi]` is a valid mantissa.
fn mantissa_ok(v: &Vec<char>, lo: usize, hi: usize) -> (r: bool)
    requires
        lo <= hi <= v@.len(),
    ensures
        r == valid_mantissa(v@.subrange(lo as int, hi as int)),
{
    let ghost m = v@.subrange(lo as int, hi as int);
    let k = find_char(v, lo, hi, '.');
    if k == hi - lo {
        hi > lo && digits_only(v, lo, hi)
    } else {
        assert(m.subrange(0, k as int) =~= v@.subrange(lo as int, lo + k));
        assert(m.subrange(k + 1, m.len() as int) =~= v@.subrange(lo + k + 1, hi as int));
        digits_only(v, lo, lo + k) && digits_only(v, lo + k + 1, hi) && hi - lo >= 2
    }
}

/// Whether `v[lo..hi]` is a valid exponent.
fn exponent_ok(v: &Vec<char>, lo: usize, hi: usize) -> (r: bool)
    requires
        lo <= hi <= v@.len(),
    ensures
        r == valid_exponent(v@.subrange(lo as int, hi as int)),
{
    let ghost e = v@.subrange(lo as int, hi as int);
    let mut a = lo;
    if lo < hi && (v[lo] == '+' || v[lo] == '-') {
        a = lo + 1;
    }
    assert(unsigned_part(e) =~= v@.subrange(a as int, hi as int));
    a < hi && digits_only(v, a, hi)
}

/// Whether the characters of `v` equal those of `lit`.
fn chars_equal(v: &Vec<char>, lit: &str) -> (r: bool)
    ensures
        r == (v@ == lit@),
{
    let w = chars_of(lit);
    if v.len() != w.len() {
        return false;
    }
    let mut i: usize = 0;
    while i < v.len()
        invariant
            i <= v@.len(),
            v@.len() == w@.len(),
            w@ == lit@,
            forall|j: int| 0 <= j < i ==> v@[j] == w@[j],
        decreases v@.len() - i,
    {
        if v[i] != w[i] {
            return false;
        }
        i += 1;
    }
    assert(v@ =~= w@);
    true
}

/// Whether `s` is accepted by `str::parse::<f64>`.
pub fn float_text_ok(s: &str) -> (r: bool)
    ensures
        r == valid_float_text(s@),
{
    let v = chars_of(s);
    let n = v.len();
    let mut a: usize = 0;
    if n > 0 && (v[0] == '+' || v[0] == '-') {
        a = 1;
    }
    assert(unsigned_part(s@) =~= v@.subrange(a as int, n as int));
    let mut t: Vec<char> = Vec::new();
    let mut i = a;
    while i < n
        invariant
            a <= i <= n,
            n == v@.len(),
            t@ == lower_str(v@.subrange(a as int, i as int)),
        decreases n - i,
    {
        let c = v[i];
        let l = if 'A' <= c && c <= 'Z' {
            ((c as u32) + 32) as u8 as char
        } else {
            c
        };
        assert(l == lower(c)) by {
            if 'A' <= c && c <= 'Z' {
                assert(((c as u32) + 32) < 256);
            }
        }
        t.push(l);
        assert(v@.subrange(a as int, i + 1) =~= v@.subrange(a as int, i as int).push(c));
        i += 1;
        assert(t@ =~= lower_str(v@.subrange(a as int, i as int)));
    }
    if chars_equal(&t, "inf") || chars_equal(&t, "infinity") || chars_equal(&t, "nan") {
        return true;
    }
    let tn = t.len();
    let k = find_char(&t, 0, tn, 'e');
    assert(t@.subrange(0, tn as int) =~= t@);
    if k == tn {
        mantissa_ok(&t, 0, tn)
    } else {
        mantissa_ok(&t, 0, k) && exponent_ok(&t, k + 1, tn)
    }
}

} // verus!

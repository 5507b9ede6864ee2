//! Exact comparison of a decimal bit-error-rate string against the fixed
//! `1.0e-9` threshold.
//!
//! A BER value arrives as decimal text (`"0.0"`, `"15e-12"`, `"2.5E-10"`).
//! The grammar accepted here is the plain decimal one: an optional sign, an
//! integer part and/or a fractional part, and an optional signed exponent.
//! The text denotes the rational `m * 10^e`, where `m` is the mantissa read
//! as one integer (the decimal point removed) and `e` is the written
//! exponent minus the number of fractional digits.
//!
//! `m * 10^e > 1 * 10^(-9)` is decided exactly, without floating point, by
//! normalizing: with `k` leading zero digits stripped from the mantissa and
//! `n` significant digits left, the value is `d.ddd... * 10^o` with
//! `o = e + n - 1` and leading digit `d >= 1`. The value exceeds the
//! threshold iff `o > -9`, or `o == -9` and the significant digits exceed
//! `1` followed by zeros.

use vstd::prelude::*;

use vstd::arithmetic::power::pow;

use crate::text::{all_digits, digit_val, digits_value, is_digit_char, lemma_digits_value_nonneg};

verus! {

/// First index at or after `i` holding `e` or `E`, else `s.len()`.
pub open spec fn scan_exp(s: Seq<char>, i: int) -> int
    decreases s.len() - i,
{
    if i >= s.len() {
        s.len() as int
    } else if s[i] == 'e' || s[i] == 'E' {
        i
    } else {
        scan_exp(s, i + 1)
    }
}

/// First index at or after `i`, below `lim <= s.len()`, holding `.`, else `lim`.
pub open spec fn scan_dot(s: Seq<char>, i: int, lim: int) -> int
    decreases lim - i,
{
    if i >= lim || i >= s.len() {
        lim
    } else if s[i] == '.' {
        i
    } else {
        scan_dot(s, i + 1, lim)
    }
}

/// First index at or after `i` holding a character other than `0`, else `s.len()`.
pub open spec fn scan_nonzero(s: Seq<char>, i: int) -> int
    decreases s.len() - i,
{
    if i >= s.len() {
        s.len() as int
    } else if s[i] as u32 != 48 {
        i
    } else {
        scan_nonzero(s, i + 1)
    }
}

pub open spec fn has_sign(s: Seq<char>) -> bool {
    s.len() > 0 && (s[0] == '-' || s[0] == '+')
}

pub open spec fn is_negative(s: Seq<char>) -> bool {
    s.len() > 0 && s[0] == '-'
}

/// The sign-and-magnitude decomposition of a decimal string: negativity,
/// the mantissa digits with the point removed, and the power-of-ten
/// exponent of the least significant mantissa digit.
pub struct DecParts {
    pub neg: bool,
    pub digits: Seq<char>,
    pub exp: int,
}

/// Start of the mantissa (past the sign, if any).
pub open spec fn mant_start(s: Seq<char>) -> int {
    if has_sign(s) { 1 } else { 0 }
}

/// Mantissa digits of `s`: integer part then fractional part, point removed.
pub open spec fn mant_digits(s: Seq<char>) -> Seq<char> {
    let b = mant_start(s);
    let ei = scan_exp(s, b);
    let di = scan_dot(s, b, ei);
    if di < ei {
        s.subrange(b, di) + s.subrange(di + 1, ei)
    } else {
        s.subrange(b, di)
    }
}

/// The exponent digit group of `s`, past any sign, when an `e` marker exists.
pub open spec fn exp_digits(s: Seq<char>) -> Seq<char> {
    let ei = scan_exp(s, mant_start(s));
    let rest = s.subrange(ei + 1, s.len() as int);
    if has_sign(rest) { rest.drop_first() } else { rest }
}

/// Decomposes a decimal string, or `None` when it does not fit the grammar.
pub open spec fn spec_dec_parts(s: Seq<char>) -> Option<DecParts> {
    let b = mant_start(s);
    let ei = scan_exp(s, b);
    let m = mant_digits(s);
    let flen: int = {
        let di = scan_dot(s, b, ei);
        if di < ei { ei - di - 1 } else { 0 }
    };
    if !(all_digits(m) && m.len() >= 1) {
        None
    } else if ei < s.len() {
        let ed = exp_digits(s);
        if ed.len() >= 1 && all_digits(ed) {
            let rest = s.subrange(ei + 1, s.len() as int);
            let ev = if is_negative(rest) { -digits_value(ed) } else { digits_value(ed) };
            Some(DecParts { neg: is_negative(s), digits: m, exp: ev - flen })
        } else {
            None
        }
    } else {
        Some(DecParts { neg: is_negative(s), digits: m, exp: -flen })
    }
}

/// True when the decomposed value strictly exceeds `1 * 10^(-9)`.
pub open spec fn parts_above_threshold(p: DecParts) -> bool {
    if p.neg {
        false
    } else {
        let k = scan_nonzero(p.digits, 0);
        if k >= p.digits.len() {
            false
        } else {
            let o = p.exp + (p.digits.len() - k) - 1;
            o > -9 || (o == -9 && (digit_val(p.digits[k]) > 1 || exists|j: int|
                k < j < p.digits.len() && digit_val(p.digits[j]) > 0))
        }
    }
}

/// What `ber_above_threshold` returns: `None` when the text is not a
/// decimal number, else whether its value strictly exceeds `1.0e-9`.
pub open spec fn spec_ber_above(s: Seq<char>) -> Option<bool> {
    match spec_dec_parts(s) {
        Option::None => Option::None,
        Option::Some(p) => Option::Some(parts_above_threshold(p)),
    }
}

/// Bound past which an exponent's exact magnitude no longer matters: any
/// mantissa length fits in a `usize`, so an exponent at or above this bound
/// decides the comparison by sign alone.
pub open spec fn exp_big_bound() -> int {
    0x100000000000000000
}

/// Scans forward for `e`/`E`, matching `scan_exp`.
fn find_exp(s: &str, from: usize) -> (ei: usize)
    requires
        from <= s@.len(),
    ensures
        from <= ei <= s@.len(),
        ei == scan_exp(s@, from as int),
        ei < s@.len() ==> (s@[ei as int] == 'e' || s@[ei as int] == 'E'),
{
    let n = s.unicode_len();
    let mut i: usize = from;
    while i < n
        invariant
            from <= i <= n,
            n == s@.len(),
            scan_exp(s@, from as int) == scan_exp(s@, i as int),
        decreases n - i,
    {
        let c = s.get_char(i);
        if c == 'e' || c == 'E' {
            return i;
        }
        i += 1;
    }
    n
}

/// Scans forward for `.` below `lim`, matching `scan_dot`.
fn find_dot(s: &str, from: usize, lim: usize) -> (di: usize)
    requires
        from <= lim <= s@.len(),
    ensures
        from <= di <= lim,
        di == scan_dot(s@, from as int, lim as int),
        di < lim ==> s@[di as int] == '.',
{
    let mut i: usize = from;
    while i < lim
        invariant
            from <= i <= lim,
            lim <= s@.len(),
            scan_dot(s@, from as int, lim as int) == scan_dot(s@, i as int, lim as int),
        decreases lim - i,
    {
        let c = s.get_char(i);
        if c == '.' {
            return i;
        }
        i += 1;
    }
    lim
}

/// Checks that every character in `[from, lim)` is a decimal digit.
fn check_digits(s: &str, from: usize, lim: usize) -> (r: bool)
    requires
        from <= lim <= s@.len(),
    ensures
        r == all_digits(s@.subrange(from as int, lim as int)),
{
    let mut i: usize = from;
    while i < lim
        invariant
            from <= i <= lim,
            lim <= s@.len(),
            forall|j: int| from <= j < i ==> is_digit_char(s@[j]),
        decreases lim - i,
    {
        let c = s.get_char(i);
        let d = c as u32;
        if d < 48 || d > 57 {
            assert(!is_digit_char(s@.subrange(from as int, lim as int)[i - from]));
            return false;
        }
        i += 1;
    }
    assert forall|j: int| 0 <= j < lim - from implies is_digit_char(
        s@.subrange(from as int, lim as int)[j]) by {
        assert(s@.subrange(from as int, lim as int)[j] == s@[from + j]);
    }
    true
}

/// The exact value of the digit group `[from, lim)` of `s`, or, when it
/// exceeds `exp_big_bound`, that bound's certainty flag.
fn digit_group_value(s: &str, from: usize, lim: usize) -> (r: (u128, bool))
    requires
        from <= lim <= s@.len(),
        all_digits(s@.subrange(from as int, lim as int)),
    ensures
        r.1 ==> digits_value(s@.subrange(from as int, lim as int)) >= exp_big_bound(),
        !r.1 ==> r.0 == digits_value(s@.subrange(from as int, lim as int))
            && r.0 < exp_big_bound(),
{
    let ghost whole = s@.subrange(from as int, lim as int);
    let mut val: u128 = 0;
    let mut big: bool = false;
    let mut i: usize = from;
    while i < lim
        invariant
            from <= i <= lim,
            lim <= s@.len(),
            whole == s@.subrange(from as int, lim as int),
            all_digits(whole),
            big ==> digits_value(s@.subrange(from as int, i as int)) >= exp_big_bound(),
            !big ==> val == digits_value(s@.subrange(from as int, i as int))
                && val < exp_big_bound(),
        decreases lim - i,
    {
        let c = s.get_char(i);
        let d = (c as u32) as u128;
        proof {
            let p = s@.subrange(from as int, i as int);
            let q = s@.subrange(from as int, (i + 1) as int);
            assert(q.drop_last() =~= p);
            assert(q.last() == whole[i - from]);
            assert(is_digit_char(whole[i - from]));
        }
        if big {
            proof {
                let p = s@.subrange(from as int, i as int);
                let q = s@.subrange(from as int, (i + 1) as int);
                assert(digits_value(q) == digits_value(p) * 10 + digit_val(q.last()));
                assert(digits_value(p) * 10 >= exp_big_bound() * 10) by (nonlinear_arith)
                    requires digits_value(p) >= exp_big_bound();
                assert(digit_val(q.last()) >= 0);
            }
        } else {
            proof {
                let p = s@.subrange(from as int, i as int);
                let q = s@.subrange(from as int, (i + 1) as int);
                assert(digits_value(q) == digits_value(p) * 10 + digit_val(q.last()));
            }
            let nv = val * 10 + (d - 48);
            if nv >= 0x100000000000000000u128 {
                big = true;
            } else {
                val = nv;
            }
        }
        i += 1;
    }
    assert(s@.subrange(from as int, lim as int) =~= s@.subrange(from as int, lim as int));
    (val, big)
}

/// Decides whether the decimal text `s` denotes a value strictly above
/// `1.0e-9`; `None` when `s` is not a decimal number.
#[verifier::rlimit(80)]
#[verifier::spinoff_prover]
pub fn ber_above_threshold(s: &str) -> (r: Option<bool>)
    ensures
        r == spec_ber_above(s@),
{
    let n = s.unicode_len();
    let mut neg = false;
    let mut b: usize = 0;
    if n > 0 {
        let c0 = s.get_char(0);
        if c0 == '-' {
            neg = true;
            b = 1;
        } else if c0 == '+' {
            b = 1;
        }
    }
    assert(b == mant_start(s@));
    assert(neg == is_negative(s@));
    let ei = find_exp(s, b);
    let di = find_dot(s, b, ei);
    // mantissa digit groups
    if !check_digits(s, b, di) {
        proof {
            let m = mant_digits(s@);
            let ip = s@.subrange(b as int, di as int);
            let j = choose|j: int| 0 <= j < ip.len() && !is_digit_char(ip[j]);
            assert(m[j] == ip[j]);
            assert(!all_digits(m));
        }
        return None;
    }
    let flen: usize = if di < ei { ei - di - 1 } else { 0 };
    if di < ei {
        if !check_digits(s, di + 1, ei) {
            proof {
                let m = mant_digits(s@);
                let fp = s@.subrange(di + 1, ei as int);
                assert(exists|j: int| 0 <= j < fp.len() && !is_digit_char(fp[j]));
                let j = choose|j: int| 0 <= j < fp.len() && !is_digit_char(fp[j]);
                assert(m[s@.subrange(b as int, di as int).len() + j] == fp[j]);
                assert(!all_digits(m));
            }
            return None;
        }
    }
    let dlen: usize = (di - b) + flen;
    proof {
        let m = mant_digits(s@);
        assert(m.len() == dlen);
        assert forall|j: int| 0 <= j < m.len() implies is_digit_char(m[j]) by {
            if j < di - b {
                assert(m[j] == s@.subrange(b as int, di as int)[j]);
            } else {
                assert(m[j] == s@.subrange(di + 1, ei as int)[j - (di - b)]);
            }
        }
    }
    if dlen == 0 {
        return None;
    }
    // significant digits: find the first mantissa digit that is not zero
    let ghost m = mant_digits(s@);
    let mut k: usize = 0;
    let mut found = false;
    let mut lead: u32 = 0;
    while k < dlen && !found
        invariant
            0 <= k <= dlen,
            dlen == m.len(),
            m == mant_digits(s@),
            b <= di <= ei <= s@.len(),
            b == mant_start(s@),
            ei == scan_exp(s@, b as int),
            di == scan_dot(s@, b as int, ei as int),
            dlen == (di - b) + flen,
            flen == (if di < ei { ei - di - 1 } else { 0 }),
            all_digits(m),
            !found ==> scan_nonzero(m, 0) == scan_nonzero(m, k as int),
            found ==> k < dlen && scan_nonzero(m, 0) == k as int && lead == m[k as int] as u32,
        decreases dlen - k + (if found { 0int } else { 1int }),
    {
        let pos: usize = if k < di - b { b + k } else { di + 1 + (k - (di - b)) };
        let c = s.get_char(pos);
        proof {
            if k < di - b {
                assert(m[k as int] == s@.subrange(b as int, di as int)[k as int]);
            } else {
                assert(m[k as int] == s@.subrange(di + 1, ei as int)[k - (di - b)]);
            }
        }
        let d = c as u32;
        if d != 48 {
            found = true;
            lead = d;
        } else {
            k += 1;
        }
    }
    if !found {
        // every mantissa digit is zero: the value is zero on either grammar arm
        assert(scan_nonzero(m, 0) == dlen);
        if ei < n {
            let (ok, _eneg, _ev, _ebig) = exp_group(s, ei);
            if !ok {
                return None;
            }
            return Some(false);
        }
        return Some(false);
    }
    // any significant digit after the leading one that is not zero?
    let mut tail_nonzero = false;
    let mut t: usize = k + 1;
    while t < dlen
        invariant
            k < t <= dlen,
            k < dlen,
            dlen == m.len(),
            m == mant_digits(s@),
            b <= di <= ei <= s@.len(),
            b == mant_start(s@),
            ei == scan_exp(s@, b as int),
            di == scan_dot(s@, b as int, ei as int),
            dlen == (di - b) + flen,
            flen == (if di < ei { ei - di - 1 } else { 0 }),
            all_digits(m),
            scan_nonzero(m, 0) == k as int,
            tail_nonzero == (exists|j: int| k < j < t && digit_val(m[j]) > 0),
        decreases dlen - t,
    {
        let pos: usize = if t < di - b { b + t } else { di + 1 + (t - (di - b)) };
        let c = s.get_char(pos);
        proof {
            if t < di - b {
                assert(m[t as int] == s@.subrange(b as int, di as int)[t as int]);
            } else {
                assert(m[t as int] == s@.subrange(di + 1, ei as int)[t - (di - b)]);
            }
        }
        let d = c as u32;
        if d != 48 {
            assert(is_digit_char(m[t as int]));
            assert(digit_val(m[t as int]) > 0);
            tail_nonzero = true;
        }
        t += 1;
    }
    let siglen: usize = dlen - k;
    // exponent
    let mut e_exact: i128 = 0;
    let mut e_big_pos = false;
    let mut e_big_neg = false;
    if ei < n {
        let (ok, eneg, ev, ebig) = exp_group(s, ei);
        if !ok {
            return None;
        }
        if ebig {
            if eneg {
                e_big_neg = true;
            } else {
                e_big_pos = true;
            }
        } else {
            e_exact = if eneg { -(ev as i128) } else { ev as i128 };
        }
    }
    proof {
        assert(all_digits(m) && m.len() >= 1);
        assert(spec_dec_parts(s@) is Some);
    }
    let ghost p = spec_dec_parts(s@).unwrap();
    assert(p.digits == m && p.neg == neg);
    if e_big_pos {
        assert(p.exp + (m.len() - scan_nonzero(m, 0)) - 1 > -9);
        return Some(!neg);
    }
    if e_big_neg {
        assert(p.exp + (m.len() - scan_nonzero(m, 0)) - 1 < -9);
        return Some(false);
    }
    if neg {
        return Some(false);
    }
    // all quantities are now exact and small
    let o: i128 = e_exact - (flen as i128) + (siglen as i128) - 1;
    assert(o == p.exp + (m.len() - scan_nonzero(m, 0)) - 1);
    if o > -9 {
        Some(true)
    } else if o < -9 {
        Some(false)
    } else {
        Some(lead > 49 || tail_nonzero)
    }
}

/// Validates and evaluates the exponent group following the `e` marker at
/// `ei`: returns (grammar ok, negative, exact value, value at or above
/// `exp_big_bound`).
fn exp_group(s: &str, ei: usize) -> (r: (bool, bool, u128, bool))
    requires
        mant_start(s@) <= ei < s@.len(),
        ei == scan_exp(s@, mant_start(s@) as int),
    ensures
        r.0 == (exp_digits(s@).len() >= 1 && all_digits(exp_digits(s@))),
        r.0 ==> r.1 == is_negative(s@.subrange(ei + 1, s@.len() as int)),
        r.0 && r.3 ==> digits_value(exp_digits(s@)) >= exp_big_bound(),
        r.0 && !r.3 ==> r.2 == digits_value(exp_digits(s@)) && r.2 < exp_big_bound(),
{
    let n = s.unicode_len();
    let ghost rest = s@.subrange(ei + 1, n as int);
    let mut eb: usize = ei + 1;
    let mut eneg = false;
    if eb < n {
        let c = s.get_char(eb);
        proof {
            assert(rest[0] == s@[ei + 1]);
        }
        if c == '-' {
            eneg = true;
            eb += 1;
        } else if c == '+' {
            eb += 1;
        }
    }
    proof {
        assert(eneg == is_negative(rest));
        if has_sign(rest) {
            assert(exp_digits(s@) =~= s@.subrange(eb as int, n as int));
        } else {
            assert(exp_digits(s@) =~= s@.subrange(eb as int, n as int));
        }
    }
    if eb >= n {
        return (false, eneg, 0, false);
    }
    if !check_digits(s, eb, n) {
        return (false, eneg, 0, false);
    }
    let (ev, ebig) = digit_group_value(s, eb, n);
    (true, eneg, ev, ebig)
}

/// `digits_value` splits at the leading digit.
proof fn lemma_digits_split_first(s: Seq<char>)
    requires
        all_digits(s),
        s.len() >= 1,
    ensures
        digits_value(s) == digit_val(s[0]) * pow(10, (s.len() - 1) as nat) + digits_value(
            s.drop_first()),
    decreases s.len(),
{
    reveal(pow);
    if s.len() == 1 {
        assert(s.drop_last() =~= Seq::<char>::empty());
        assert(s.drop_first() =~= Seq::<char>::empty());
        assert(pow(10, 0) == 1);
        assert(digits_value(s) == digits_value(Seq::<char>::empty()) * 10 + digit_val(s.last()));
    } else {
        let p = s.drop_last();
        assert(all_digits(p));
        assert(p[0] == s[0]);
        lemma_digits_split_first(p);
        let n = s.len();
        let d0 = digit_val(s[0]);
        let dl = digit_val(s.last());
        assert(s.drop_first().drop_last() =~= p.drop_first());
        assert(s.drop_first().last() == s.last());
        assert(digits_value(s.drop_first()) == digits_value(p.drop_first()) * 10 + dl);
        assert(digits_value(s) == digits_value(p) * 10 + dl);
        assert(pow(10, (n - 1) as nat) == 10 * pow(10, (n - 2) as nat));
        assert(digits_value(p) * 10 == d0 * pow(10, (n - 1) as nat) + digits_value(
            p.drop_first()) * 10) by (nonlinear_arith)
            requires
                digits_value(p) == d0 * pow(10, (n - 2) as nat) + digits_value(p.drop_first()),
                pow(10, (n - 1) as nat) == 10 * pow(10, (n - 2) as nat),
        ;
    }
}

/// A digit string's value stays below ten to its length.
proof fn lemma_digits_upper(s: Seq<char>)
    requires
        all_digits(s),
    ensures
        digits_value(s) < pow(10, s.len()),
    decreases s.len(),
{
    reveal(pow);
    if s.len() == 0 {
        assert(pow(10, 0) == 1);
    } else {
        let p = s.drop_last();
        assert(all_digits(p));
        lemma_digits_upper(p);
        assert(pow(10, s.len()) == 10 * pow(10, (s.len() - 1) as nat));
        assert(digit_val(s.last()) <= 9);
    }
}

/// A digit string's value is zero exactly when every digit is zero.
proof fn lemma_digits_zero_iff(s: Seq<char>)
    requires
        all_digits(s),
    ensures
        (digits_value(s) == 0) <==> (forall|j: int| 0 <= j < s.len() ==> digit_val(s[j]) == 0),
    decreases s.len(),
{
    if s.len() > 0 {
        let p = s.drop_last();
        assert(all_digits(p));
        lemma_digits_zero_iff(p);
        lemma_digits_value_nonneg(p);
        assert(digits_value(s) == digits_value(p) * 10 + digit_val(s.last()));
        if digits_value(s) == 0 {
            assert(digits_value(p) == 0 && digit_val(s.last()) == 0);
            assert forall|j: int| 0 <= j < s.len() implies digit_val(s[j]) == 0 by {
                if j < s.len() - 1 {
                    assert(s[j] == p[j]);
                }
            }
        }
        if forall|j: int| 0 <= j < s.len() ==> digit_val(s[j]) == 0 {
            assert forall|j: int| 0 <= j < p.len() implies digit_val(p[j]) == 0 by {
                assert(p[j] == s[j]);
            }
            assert(digit_val(s.last()) == 0);
        }
    }
}

/// Leading zero digits do not change a digit string's value.
proof fn lemma_strip_zeros(s: Seq<char>, k: int)
    requires
        all_digits(s),
        0 <= k <= s.len(),
        forall|j: int| 0 <= j < k ==> digit_val(s[j]) == 0,
    ensures
        digits_value(s) == digits_value(s.subrange(k, s.len() as int)),
    decreases k,
{
    if k == 0 {
        assert(s.subrange(0, s.len() as int) =~= s);
    } else {
        lemma_digits_split_first(s);
        let t = s.drop_first();
        assert(all_digits(t));
        assert forall|j: int| 0 <= j < k - 1 implies digit_val(t[j]) == 0 by {
            assert(t[j] == s[j + 1]);
        }
        lemma_strip_zeros(t, k - 1);
        assert(t.subrange(k - 1, t.len() as int) =~= s.subrange(k, s.len() as int));
    }
}

/// The structural threshold predicate says exactly that the denoted value
/// `m * 10^e` exceeds `10^(-9)`, both sides scaled to integers: with
/// `m` the mantissa's value and `e` its exponent, the value exceeds the
/// threshold iff `m * 10^(e+9) > 1` (for `e + 9 >= 0`), or
/// `m > 10^(-(e+9))` (for `e + 9 < 0`).
pub proof fn lemma_threshold_is_arithmetic(p: DecParts)
    requires
        all_digits(p.digits),
        p.digits.len() >= 1,
    ensures
        parts_above_threshold(p) <==> (!p.neg && (if p.exp + 9 >= 0 {
            digits_value(p.digits) * pow(10, (p.exp + 9) as nat) > 1
        } else {
            digits_value(p.digits) > pow(10, (-(p.exp + 9)) as nat)
        })),
{
    broadcast use vstd::arithmetic::power::lemma_pow_positive;

    reveal(pow);
    let m = digits_value(p.digits);
    let len = p.digits.len() as int;
    let k = scan_nonzero(p.digits, 0);
    lemma_scan_nonzero_zeros(p.digits, 0);
    lemma_digits_value_nonneg(p.digits);
    if p.neg {
        return;
    }
    if k >= len {
        // every digit is zero, so the value is zero and below any power
        lemma_digits_zero_iff(p.digits);
        assert forall|j: int| 0 <= j < len implies digit_val(p.digits[j]) == 0 by {
            assert(p.digits[j] as u32 == 48);
        }
        assert(m == 0);
        if p.exp + 9 >= 0 {
            assert(m * pow(10, (p.exp + 9) as nat) == 0);
        } else {
            assert(pow(10, (-(p.exp + 9)) as nat) > 0);
        }
        return;
    }
    let sig = p.digits.subrange(k, len);
    let n = sig.len() as int;
    let o = p.exp + n - 1;
    assert forall|j: int| 0 <= j < k implies digit_val(p.digits[j]) == 0 by {
        assert(p.digits[j] as u32 == 48);
    }
    lemma_strip_zeros(p.digits, k);
    assert(m == digits_value(sig));
    assert(all_digits(sig));
    assert(sig[0] == p.digits[k]);
    let d0 = digit_val(sig[0]);
    assert(1 <= d0 <= 9);
    lemma_digits_split_first(sig);
    lemma_digits_value_nonneg(sig.drop_first());
    lemma_digits_upper(sig);
    assert(m >= d0 * pow(10, (n - 1) as nat));
    assert(d0 * pow(10, (n - 1) as nat) >= pow(10, (n - 1) as nat)) by (nonlinear_arith)
        requires
            d0 >= 1,
            pow(10, (n - 1) as nat) > 0,
    ;
    if o > -9 {
        assert(parts_above_threshold(p));
        if p.exp + 9 >= 0 {
            vstd::arithmetic::power::lemma_pow_adds(10, (n - 1) as nat, (p.exp + 9) as nat);
            assert(pow(10, (n - 1) as nat) * pow(10, (p.exp + 9) as nat) == pow(10, (n + p.exp
                + 8) as nat));
            assert(n + p.exp + 8 >= 1);
            vstd::arithmetic::power::lemma_pow_strictly_increases(10, 0, (n + p.exp + 8) as nat);
            assert(pow(10, (n + p.exp + 8) as nat) > 1);
            assert(m * pow(10, (p.exp + 9) as nat) >= pow(10, (n - 1) as nat) * pow(10, (p.exp
                + 9) as nat)) by (nonlinear_arith)
                requires
                    m >= pow(10, (n - 1) as nat),
                    pow(10, (p.exp + 9) as nat) > 0,
            ;
        } else {
            assert(-(p.exp + 9) < n - 1);
            vstd::arithmetic::power::lemma_pow_strictly_increases(10, (-(p.exp + 9)) as nat, (n
                - 1) as nat);
            assert(m > pow(10, (-(p.exp + 9)) as nat));
        }
    } else if o < -9 {
        assert(!parts_above_threshold(p));
        assert(p.exp + 9 < 0);
        assert(-(p.exp + 9) >= n);
        vstd::arithmetic::power::lemma_pow_increases(10, n as nat, (-(p.exp + 9)) as nat);
        assert(m < pow(10, n as nat));
        assert(!(m > pow(10, (-(p.exp + 9)) as nat)));
    } else {
        // o == -9: above the threshold iff the significant digits exceed
        // one followed by zeros, that is iff m > 10^(n-1)
        let tail = sig.drop_first();
        lemma_digits_zero_iff(tail);
        lemma_digits_upper(tail);
        let structural = d0 > 1 || (exists|j: int| k < j < len && digit_val(p.digits[j]) > 0);
        assert(parts_above_threshold(p) == structural);
        assert((exists|j: int| k < j < len && digit_val(p.digits[j]) > 0) <==> (exists|j: int|
            0 <= j < tail.len() && digit_val(tail[j]) > 0)) by {
            if exists|j: int| k < j < len && digit_val(p.digits[j]) > 0 {
                let j = choose|j: int| k < j < len && digit_val(p.digits[j]) > 0;
                assert(tail[j - k - 1] == p.digits[j]);
            }
            if exists|j: int| 0 <= j < tail.len() && digit_val(tail[j]) > 0 {
                let j = choose|j: int| 0 <= j < tail.len() && digit_val(tail[j]) > 0;
                assert(tail[j] == p.digits[k + 1 + j]);
            }
        }
        let structural2 = d0 > 1 || digits_value(tail) > 0;
        assert(structural == structural2) by {
            lemma_digits_value_nonneg(tail);
        }
        assert(m == d0 * pow(10, (n - 1) as nat) + digits_value(tail));
        assert(structural2 <==> m > pow(10, (n - 1) as nat)) by (nonlinear_arith)
            requires
                m == d0 * pow(10, (n - 1) as nat) + digits_value(tail),
                1 <= d0 <= 9,
                0 <= digits_value(tail) < pow(10, (n - 1) as nat),
                pow(10, (n - 1) as nat) > 0,
                structural2 == (d0 > 1 || digits_value(tail) > 0),
        ;
        if n == 1 {
            assert(p.exp + 9 == 0);
            assert(pow(10, 0) == 1);
            assert(m * pow(10, 0) == m);
        } else {
            assert(p.exp + 9 < 0);
            assert(-(p.exp + 9) == n - 1);
        }
    }
}

/// Everything `scan_nonzero` passed over is the zero digit.
proof fn lemma_scan_nonzero_zeros(s: Seq<char>, i: int)
    requires
        0 <= i <= s.len(),
    ensures
        i <= scan_nonzero(s, i) <= s.len(),
        forall|j: int| i <= j < scan_nonzero(s, i) ==> s[j] as u32 == 48,
        scan_nonzero(s, i) < s.len() ==> s[scan_nonzero(s, i)] as u32 != 48,
    decreases s.len() - i,
{
    if i < s.len() && s[i] as u32 == 48 {
        lemma_scan_nonzero_zeros(s, i + 1);
    }
}

} // verus!

//! The remaining quota that the session details carry.
use vstd::prelude::*;

use crate::text::first_char_from;

verus! {

/// Ten to the power `k`.
pub open spec fn pow10(k: nat) -> nat
    decreases k,
{
    if k == 0 {
        1
    } else {
        10 * pow10((k - 1) as nat)
    }
}

/// `c` is a decimal digit.
pub open spec fn is_digit(c: char) -> bool {
    '0' <= c <= '9'
}

/// `c` is a sign.
pub open spec fn is_sign(c: char) -> bool {
    c == '+' || c == '-'
}

/// `c` marks an exponent.
pub open spec fn is_exp_mark(c: char) -> bool {
    c == 'e' || c == 'E'
}

/// Length of the sign that `s` starts with: one or none.
pub open spec fn sign_len(s: Seq<char>) -> int {
    if s.len() > 0 && is_sign(s[0]) {
        1
    } else {
        0
    }
}

/// `s` starts with a minus sign.
pub open spec fn starts_negative(s: Seq<char>) -> bool {
    s.len() > 0 && s[0] == '-'
}

/// The value of the decimal digits of `s`, a `.` being skipped.
pub open spec fn decimal_digits_value(s: Seq<char>) -> nat
    decreases s.len(),
{
    if s.len() == 0 {
        0
    } else if s.last() == '.' {
        decimal_digits_value(s.drop_last())
    } else {
        decimal_digits_value(s.drop_last()) * 10 + (s.last() as u32 - '0' as u32) as nat
    }
}

/// Number of digits after the decimal point of `s`.
pub open spec fn fraction_len(s: Seq<char>) -> nat {
    match first_char_from(s, '.', 0) {
        Some(p) => (s.len() - 1 - p) as nat,
        None => 0,
    }
}

/// Number of digits in `s`.
pub open spec fn digit_count(s: Seq<char>) -> nat {
    match first_char_from(s, '.', 0) {
        Some(p) => (s.len() - 1) as nat,
        None => s.len(),
    }
}

/// `i` is the first index at which `s` holds an exponent mark.
pub open spec fn is_first_mark(s: Seq<char>, i: int) -> bool {
    &&& 0 <= i < s.len()
    &&& is_exp_mark(s[i])
    &&& forall|k: int| 0 <= k < i ==> !is_exp_mark(#[trigger] s[k])
}

/// The index of the first exponent mark of `s`, or its length where it has none.
pub open spec fn mark_index(s: Seq<char>) -> int {
    if exists|i: int| #[trigger] is_first_mark(s, i) {
        choose|i: int| #[trigger] is_first_mark(s, i)
    } else {
        s.len() as int
    }
}

/// The digits and point of a number, between its sign and its exponent.
pub open spec fn mantissa_of(s: Seq<char>) -> Seq<char> {
    s.subrange(sign_len(s), mark_index(s))
}

/// What follows the exponent mark of a number.
pub open spec fn exponent_of(s: Seq<char>) -> Seq<char> {
    s.subrange(mark_index(s) + 1, s.len() as int)
}

/// Decimal digits with at most one decimal point, and at least one digit.
pub open spec fn is_mantissa(m: Seq<char>) -> bool {
    &&& forall|i: int| 0 <= i < m.len() ==> is_digit(#[trigger] m[i]) || m[i] == '.'
    &&& forall|i: int, j: int| 0 <= i < j < m.len() && #[trigger] m[i] == '.' ==> #[trigger] m[j] != '.'
    &&& digit_count(m) >= 1
}

/// A sign, or none, and then at least one decimal digit.
pub open spec fn is_exponent(t: Seq<char>) -> bool {
    &&& t.len() > sign_len(t)
    &&& forall|i: int| sign_len(t) <= i < t.len() ==> is_digit(#[trigger] t[i])
}

/// `s` is a decimal number as a float is written: a sign or none, digits with
/// at most one point and at least one digit, then an exponent or none (`e` or
/// `E`, a sign or none, digits).
pub open spec fn is_number_text(s: Seq<char>) -> bool {
    &&& is_mantissa(mantissa_of(s))
    &&& mark_index(s) < s.len() ==> is_exponent(exponent_of(s))
}

/// The power of ten that the exponent of `s` gives; zero without one.
pub open spec fn exponent_value(s: Seq<char>) -> int {
    if mark_index(s) < s.len() {
        let t = exponent_of(s);
        let v = decimal_digits_value(t.subrange(sign_len(t), t.len() as int)) as int;
        if starts_negative(t) {
            -v
        } else {
            v
        }
    } else {
        0
    }
}

/// `m * 10^x` seconds in tenths of an hour, rounded half up.
pub open spec fn scaled_tenths(m: nat, x: int) -> nat {
    if x >= 0 {
        (2 * m * pow10(x as nat) + 360) / 720
    } else {
        (2 * m + 360 * pow10((-x) as nat)) / (720 * pow10((-x) as nat))
    }
}

/// Largest mantissa that is read, as an integer without its point, plus one.
pub open spec fn mantissa_limit() -> nat {
    pow10(36)
}

/// The quota in tenths of an hour that a number of seconds gives, rounded half
/// away from zero. `None` where the text is no number, where its digits
/// without the point reach 10^36 (an `f64` keeps 17 of them), and where the
/// tenths do not fit in an `i64`.
pub open spec fn quota_tenths_of(s: Seq<char>) -> Option<int> {
    let m = mantissa_of(s);
    if is_number_text(s) && decimal_digits_value(m) < mantissa_limit() {
        let t = scaled_tenths(decimal_digits_value(m), exponent_value(s) - fraction_len(m));
        if t <= i64::MAX {
            Some(
                if starts_negative(s) {
                    -(t as int)
                } else {
                    t as int
                },
            )
        } else {
            None
        }
    } else {
        None
    }
}

/// The quota that the gateway's list of entries gives: the value of the entry
/// at index 1, where there is one and it reads as seconds.
pub open spec fn ball_quota_of(values: Seq<Option<String>>) -> Option<int> {
    if values.len() >= 2 {
        match values[1] {
            Some(s) => quota_tenths_of(s@),
            None => None,
        }
    } else {
        None
    }
}

proof fn lemma_pow10_monotone(a: nat, b: nat)
    requires
        a <= b,
    ensures
        1 <= pow10(a) <= pow10(b),
    decreases b,
{
    if a < b {
        lemma_pow10_monotone(a, (b - 1) as nat);
    } else if a > 0 {
        lemma_pow10_monotone((a - 1) as nat, (a - 1) as nat);
    }
}

proof fn lemma_pow10_add(a: nat, b: nat)
    ensures
        pow10(a + b) == pow10(a) * pow10(b),
    decreases a,
{
    if a > 0 {
        lemma_pow10_add((a - 1) as nat, b);
        assert(pow10(a + b) == 10 * pow10((a - 1 + b) as nat));
        assert(10 * (pow10((a - 1) as nat) * pow10(b)) == (10 * pow10((a - 1) as nat)) * pow10(b))
            by (nonlinear_arith);
    } else {
        assert(a + b == b);
        assert(pow10(a) == 1);
    }
}

proof fn lemma_pow10_values()
    ensures
        pow10(35) == 100_000_000_000_000_000_000_000_000_000_000_000nat,
        pow10(36) == 1_000_000_000_000_000_000_000_000_000_000_000_000nat,
        pow10(37) == 10_000_000_000_000_000_000_000_000_000_000_000_000nat,
{
    reveal_with_fuel(pow10, 38);
}

proof fn lemma_first_mark_unique(s: Seq<char>, i: int)
    requires
        is_first_mark(s, i),
    ensures
        mark_index(s) == i,
{
    let j = choose|j: int| #[trigger] is_first_mark(s, j);
    assert(is_first_mark(s, j));
    assert(!(j < i));
    assert(!(i < j));
}

/// Computes ten to the power `k`.
fn pow10_exec(k: u32) -> (r: u128)
    requires
        k <= 37,
    ensures
        r == pow10(k as nat),
{
    let mut r: u128 = 1;
    let mut i: u32 = 0;
    proof {
        lemma_pow10_values();
    }
    while i < k
        invariant
            i <= k <= 37,
            r == pow10(i as nat),
            pow10(37) == 10_000_000_000_000_000_000_000_000_000_000_000_000nat,
        decreases k - i,
    {
        proof {
            lemma_pow10_monotone((i + 1) as nat, 37);
        }
        r = r * 10;
        i = i + 1;
    }
    r
}

/// What a scan of the mantissa found.
struct MantissaScan {
    /// The index just past the mantissa.
    end: usize,
    /// The mantissa is well formed.
    ok: bool,
    /// Its value reaches the limit.
    big: bool,
    /// Its value, where below the limit.
    value: u128,
    /// Its number of digits after the point.
    frac: usize,
}

/// Reads the mantissa of `s`, which starts at `start`, just past the sign.
fn scan_mantissa(s: &str, start: usize, len: usize) -> (r: MantissaScan)
    requires
        len == s@.len(),
        start as int == sign_len(s@),
    ensures
        r.ok <==> is_mantissa(mantissa_of(s@)),
        r.ok ==> r.end == mark_index(s@),
        r.ok ==> (r.big <==> decimal_digits_value(mantissa_of(s@)) >= mantissa_limit()),
        r.ok && !r.big ==> r.value == decimal_digits_value(mantissa_of(s@)),
        r.ok ==> r.frac == fraction_len(mantissa_of(s@)),
{
    let mut i: usize = start;
    let mut value: u128 = 0;
    let mut big = false;
    let mut digits: usize = 0;
    let mut dot_seen = false;
    let mut dot_at: usize = 0;
    let mut at_mark = false;
    proof {
        lemma_pow10_values();
    }
    while i < len && !at_mark
        invariant
            len == s@.len(),
            start as int == sign_len(s@),
            start <= i <= len,
            pow10(36) == 1_000_000_000_000_000_000_000_000_000_000_000_000nat,
            pow10(35) == 100_000_000_000_000_000_000_000_000_000_000_000nat,
            forall|j: int| start <= j < i ==> is_digit(#[trigger] s@[j]) || s@[j] == '.',
            !big ==> value == decimal_digits_value(s@.subrange(start as int, i as int)),
            !big ==> value < pow10(36),
            big ==> decimal_digits_value(s@.subrange(start as int, i as int)) >= pow10(36),
            dot_seen ==> start <= dot_at < i && s@[dot_at as int] == '.',
            dot_seen ==> forall|j: int| start <= j < i && j != dot_at ==> s@[j] != '.',
            dot_seen ==> digits == i - start - 1,
            !dot_seen ==> forall|j: int| start <= j < i ==> s@[j] != '.',
            !dot_seen ==> digits == i - start,
            at_mark ==> i < len && is_exp_mark(s@[i as int]),
        decreases len - i + (if at_mark {
            0int
        } else {
            1int
        }),
    {
        let c = s.get_char(i);
        assert(s@.subrange(start as int, i + 1).drop_last() =~= s@.subrange(start as int, i as int));
        if c == '.' {
            if dot_seen {
                proof {
                    let m = mantissa_of(s@);
                    assert(s@[dot_at as int] == '.' && s@[i as int] == '.');
                    if is_mantissa(m) {
                        if exists|k: int| #[trigger] is_first_mark(s@, k) {
                            let k = choose|k: int| #[trigger] is_first_mark(s@, k);
                            assert(!(k <= i as int)) by {
                                if k <= i as int {
                                    assert(is_exp_mark(s@[k]));
                                    if k < start as int {
                                        assert(is_sign(s@[0]));
                                    }
                                }
                            }
                        }
                        assert(m[dot_at - start] == '.' && m[i - start] == '.');
                    }
                }
                return MantissaScan { end: i, ok: false, big, value, frac: 0 };
            }
            dot_seen = true;
            dot_at = i;
            i = i + 1;
        } else if '0' <= c && c <= '9' {
            if !big {
                if value < 100_000_000_000_000_000_000_000_000_000_000_000u128 {
                    value = value * 10 + (c as u128 - '0' as u128);
                } else {
                    big = true;
                }
            }
            digits = digits + 1;
            i = i + 1;
        } else if c == 'e' || c == 'E' {
            at_mark = true;
        } else {
            proof {
                let m = mantissa_of(s@);
                if is_mantissa(m) {
                    if exists|k: int| #[trigger] is_first_mark(s@, k) {
                        let k = choose|k: int| #[trigger] is_first_mark(s@, k);
                        assert(!(k <= i as int)) by {
                            if k <= i as int {
                                assert(is_exp_mark(s@[k]));
                                if k < start as int {
                                    assert(is_sign(s@[0]));
                                }
                            }
                        }
                    }
                    assert(m[i - start] == s@[i as int]);
                }
            }
            return MantissaScan { end: i, ok: false, big, value, frac: 0 };
        }
    }
    let end = i;
    proof {
        if at_mark {
            assert forall|k: int| 0 <= k < end implies !is_exp_mark(#[trigger] s@[k]) by {
                if k < start as int {
                    assert(is_sign(s@[0]));
                }
            }
            lemma_first_mark_unique(s@, end as int);
        } else {
            assert forall|k: int| !(#[trigger] is_first_mark(s@, k)) by {
                if is_first_mark(s@, k) && k < start as int {
                    assert(is_sign(s@[0]));
                }
            }
        }
    }
    let m = Ghost(mantissa_of(s@));
    assert(m@ =~= s@.subrange(start as int, end as int));
    if dot_seen {
        proof {
            crate::text::lemma_first_char_unique(m@, '.', 0, dot_at - start);
        }
    } else {
        assert(forall|j: int| 0 <= j < m@.len() ==> m@[j] != '.');
    }
    if digits == 0 {
        return MantissaScan { end, ok: false, big, value, frac: 0 };
    }
    let frac: usize = if dot_seen {
        end - 1 - dot_at
    } else {
        0
    };
    MantissaScan { end, ok: true, big, value, frac }
}

/// What a scan of the exponent found.
struct ExponentScan {
    /// The exponent is well formed.
    ok: bool,
    /// It has a minus sign.
    negative: bool,
    /// Its digits reach the cap.
    saturated: bool,
    /// Their value, where below the cap.
    value: u128,
}

/// Reads the exponent that runs from `from` to the end of `s`; values from
/// `cap` on are only told apart as saturated.
fn scan_exponent(s: &str, from: usize, len: usize, cap: u128) -> (r: ExponentScan)
    requires
        len == s@.len(),
        from <= len,
        1 <= cap <= 1_000_000_000_000_000_000_000_000_000_000u128,
    ensures
        ({
            let t = s@.subrange(from as int, len as int);
            let v = decimal_digits_value(t.subrange(sign_len(t), t.len() as int));
            &&& r.ok <==> is_exponent(t)
            &&& r.ok ==> r.negative == starts_negative(t)
            &&& r.ok && !r.saturated ==> r.value == v && r.value < cap
            &&& r.ok && r.saturated ==> v >= cap
        }),
{
    let ghost t = s@.subrange(from as int, len as int);
    let mut i: usize = from;
    let mut negative = false;
    if i < len {
        let c = s.get_char(i);
        if c == '+' || c == '-' {
            negative = c == '-';
            i = i + 1;
        }
    }
    let start = i;
    assert(start - from == sign_len(t));
    let mut value: u128 = 0;
    let mut saturated = false;
    while i < len
        invariant
            len == s@.len(),
            from <= start <= i <= len,
            start - from == sign_len(t),
            t == s@.subrange(from as int, len as int),
            1 <= cap <= 1_000_000_000_000_000_000_000_000_000_000u128,
            forall|j: int| start <= j < i ==> is_digit(#[trigger] s@[j]),
            !saturated ==> value == decimal_digits_value(s@.subrange(start as int, i as int)),
            !saturated ==> value < cap,
            saturated ==> decimal_digits_value(s@.subrange(start as int, i as int)) >= cap,
        decreases len - i,
    {
        let c = s.get_char(i);
        assert(s@.subrange(start as int, i + 1).drop_last() =~= s@.subrange(start as int, i as int));
        if '0' <= c && c <= '9' {
            if !saturated {
                let next = value * 10 + (c as u128 - '0' as u128);
                if next >= cap {
                    saturated = true;
                } else {
                    value = next;
                }
            }
            i = i + 1;
        } else {
            assert(t[i - from] == s@[i as int]);
            return ExponentScan { ok: false, negative, saturated, value };
        }
    }
    assert(t.subrange(sign_len(t), t.len() as int) =~= s@.subrange(start as int, len as int));
    ExponentScan { ok: i > start, negative, saturated, value }
}

proof fn lemma_scaled_zero(x: int)
    ensures
        scaled_tenths(0, x) == 0,
{
    if x >= 0 {
        let q = pow10(x as nat);
        assert(2 * 0 * q == 0) by (nonlinear_arith);
    } else {
        let p = pow10((-x) as nat);
        lemma_pow10_monotone(0, (-x) as nat);
        assert((2 * 0 + 360 * p) / (720 * p) == 0) by (nonlinear_arith)
            requires
                p >= 1,
        ;
    }
}

proof fn lemma_scaled_large(m: nat, x: int)
    requires
        m >= 1,
        x >= 36,
    ensures
        scaled_tenths(m, x) > i64::MAX,
{
    lemma_pow10_values();
    lemma_pow10_monotone(36, x as nat);
    let p = pow10(x as nat);
    assert(2 * m * p >= 2 * p) by (nonlinear_arith)
        requires
            m >= 1,
            p >= 0,
    ;
}

proof fn lemma_scaled_tiny(m: nat, x: int)
    requires
        m < mantissa_limit(),
        x <= -36,
    ensures
        scaled_tenths(m, x) == 0,
{
    lemma_pow10_values();
    lemma_pow10_monotone(36, (-x) as nat);
    let p = pow10((-x) as nat);
    assert((2 * m + 360 * p) / (720 * p) == 0) by (nonlinear_arith)
        requires
            p >= 1_000_000_000_000_000_000_000_000_000_000_000_000,
            m < 1_000_000_000_000_000_000_000_000_000_000_000_000,
    ;
}

/// `m * 10^x` seconds in tenths of an hour, rounded half up, where that fits
/// in an `i64`.
fn tenths_for(m: u128, x: i128) -> (r: Option<u128>)
    requires
        m < mantissa_limit(),
    ensures
        r matches Some(t) ==> t == scaled_tenths(m as nat, x as int) && t <= i64::MAX,
        r is None ==> scaled_tenths(m as nat, x as int) > i64::MAX,
{
    proof {
        lemma_pow10_values();
    }
    if m == 0 {
        proof {
            lemma_scaled_zero(x as int);
        }
        return Some(0);
    }
    if x >= 36 {
        proof {
            lemma_scaled_large(m as nat, x as int);
        }
        return None;
    }
    if x <= -36 {
        proof {
            lemma_scaled_tiny(m as nat, x as int);
        }
        return Some(0);
    }
    let t: u128;
    if x >= 0 {
        let mut p: u128 = m;
        let mut i: i128 = 0;
        assert(pow10(0) == 1);
        assert(m * pow10(0) == m);
        while i < x
            invariant
                0 <= i <= x < 36,
                m >= 1,
                p == m * pow10(i as nat),
                p < 10_000_000_000_000_000_000_000_000_000_000_000_000u128,
                pow10(36) == 1_000_000_000_000_000_000_000_000_000_000_000_000nat,
            decreases x - i,
        {
            if p >= 1_000_000_000_000_000_000_000_000_000_000_000_000u128 {
                proof {
                    let rest = (x - i) as nat;
                    lemma_pow10_add(i as nat, rest);
                    assert((i as nat + rest) == x as nat);
                    lemma_pow10_monotone(0, rest);
                    let q = pow10(rest);
                    let a = pow10(i as nat);
                    assert(m * (a * q) >= m * a) by (nonlinear_arith)
                        requires
                            q >= 1,
                            a >= 0,
                            m >= 0,
                    ;
                    let big = pow10(x as nat);
                    assert(2 * m * big == 2 * (m * big)) by (nonlinear_arith);
                    assert((2 * m * big + 360) / 720 > i64::MAX) by (nonlinear_arith)
                        requires
                            2 * m * big == 2 * (m * big),
                            m * big >= 1_000_000_000_000_000_000_000_000_000_000_000_000,
                    ;
                }
                return None;
            }
            proof {
                assert(m * pow10((i + 1) as nat) == 10 * (m * pow10(i as nat))) by (nonlinear_arith)
                    requires
                        pow10((i + 1) as nat) == 10 * pow10(i as nat),
                ;
            }
            p = p * 10;
            i = i + 1;
        }
        proof {
            assert(2 * m * pow10(x as nat) == 2 * (m * pow10(x as nat))) by (nonlinear_arith);
        }
        t = (2 * p + 360) / 720;
    } else {
        let k = (-x) as u32;
        let p = pow10_exec(k);
        proof {
            lemma_pow10_monotone(k as nat, 35);
            lemma_pow10_monotone(0, k as nat);
        }
        t = (2 * m + 360 * p) / (720 * p);
    }
    if t > 9_223_372_036_854_775_807u128 {
        None
    } else {
        Some(t)
    }
}

/// Reads a count of seconds as a float is written (`7200`, `+7200`, `7.2e3`,
/// `-5`, `.5`) and gives it in tenths of an hour, rounded half away from zero.
/// `None` where the text is no such number, where its digits without the point
/// reach 10^36, and where the tenths do not fit in an `i64` (infinite and
/// not-a-number counts among them).
pub fn parse_quota_tenths(s: &str) -> (r: Option<i64>)
    ensures
        r matches Some(t) ==> quota_tenths_of(s@) == Some(t as int),
        r is None ==> quota_tenths_of(s@) is None,
{
    let len = s.unicode_len();
    let mut start: usize = 0;
    let mut negative = false;
    if len > 0 {
        let c = s.get_char(0);
        if c == '+' || c == '-' {
            negative = c == '-';
            start = 1;
        }
    }
    let ms = scan_mantissa(s, start, len);
    if !ms.ok || ms.big {
        return None;
    }
    let ghost m = mantissa_of(s@);
    proof {
        if let Some(p) = first_char_from(m, '.', 0) {
            assert(crate::text::is_first_char_from(m, '.', 0, p));
        }
    }
    assert(ms.frac <= len);
    let x: i128;
    if ms.end < len {
        let cap: u128 = len as u128 + 100;
        let es = scan_exponent(s, ms.end + 1, len, cap);
        if !es.ok {
            return None;
        }
        if es.saturated {
            if es.negative {
                proof {
                    lemma_scaled_tiny(ms.value as nat, exponent_value(s@) - fraction_len(m));
                }
                return Some(0);
            } else if ms.value == 0 {
                proof {
                    lemma_scaled_zero(exponent_value(s@) - fraction_len(m));
                }
                return Some(0);
            } else {
                proof {
                    lemma_scaled_large(ms.value as nat, exponent_value(s@) - fraction_len(m));
                }
                return None;
            }
        }
        let e: i128 = if es.negative {
            -(es.value as i128)
        } else {
            es.value as i128
        };
        x = e - ms.frac as i128;
    } else {
        x = -(ms.frac as i128);
    }
    match tenths_for(ms.value, x) {
        None => None,
        Some(t) => {
            if negative {
                Some(-(t as i64))
            } else {
                Some(t as i64)
            }
        },
    }
}

/// The quota in tenths of an hour that the gateway's list of entries gives:
/// the value of its entry at index 1. An empty or short list, an entry without
/// a value, or a value that is no count of seconds all give `None`.
pub fn remaining_tenths(values: &Vec<Option<String>>) -> (r: Option<i64>)
    ensures
        r matches Some(t) ==> ball_quota_of(values@) == Some(t as int),
        r is None ==> ball_quota_of(values@) is None,
{
    if values.len() < 2 {
        return None;
    }
    match &values[1] {
        Some(s) => parse_quota_tenths(s.as_str()),
        None => None,
    }
}

} // verus!

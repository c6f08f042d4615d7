//! Numbers in text, read exactly.
//!
//! A number is written as Rust writes a floating-point number: an optional
//! sign, then digits with an optional point and at least one digit, then an
//! optional exponent; or, behind the optional sign, one of the words `inf`,
//! `infinity` and `nan`. The letters may be of either case.
//!
//! The number is never rounded through binary floating point. Where a scale
//! is applied, the result is the floor of the exact product; it is zero for
//! a negative number and for `nan`, and the greatest `u64` where it does not
//! fit.

use vstd::prelude::*;
use vstd::slice::*;
use vstd::arithmetic::div_mod::*;
use vstd::arithmetic::mul::*;
use crate::strings::chars_of;
use crate::text::{after, before};

verus! {

/// The greatest scale that `parse_scaled` takes: 1024 to the fourth power.
pub const MAX_SCALE: u64 = 1099511627776;

/// Exponents of this size or more are not told apart: ten to the thirtieth.
pub const EXPONENT_CAP: u128 = 1000000000000000000000000000000;

/// `c` is a digit.
pub open spec fn is_digit(c: char) -> bool {
    '0' <= c && c <= '9'
}

/// The number that the digit `c` stands for.
pub open spec fn digit_of(c: char) -> nat {
    (c as u32 - 48) as nat
}

/// Every character of `s` is a digit.
pub open spec fn all_digits(s: Seq<char>) -> bool {
    forall|i: int| 0 <= i < s.len() ==> is_digit(#[trigger] s[i])
}

/// Ten to the power `n`.
pub open spec fn pow10(n: nat) -> nat
    decreases n,
{
    if n == 0 {
        1
    } else {
        10 * pow10((n - 1) as nat)
    }
}

/// The number that the digits `s` write; 0 for no digits.
pub open spec fn digits_value(s: Seq<char>) -> nat
    decreases s.len(),
{
    if s.len() == 0 {
        0
    } else {
        digits_value(s.drop_last()) * 10 + digit_of(s.last())
    }
}

/// The number of leading characters of `s` that are digits.
pub open spec fn leading_digits(s: Seq<char>) -> nat
    decreases s.len(),
{
    if s.len() > 0 && is_digit(s[0]) {
        1 + leading_digits(s.drop_first())
    } else {
        0
    }
}

/// The length of the sign at the head of `s`: one where `s` begins with a
/// plus or a minus.
pub open spec fn sign_len(s: Seq<char>) -> nat {
    if s.len() > 0 && (s[0] == '+' || s[0] == '-') {
        1
    } else {
        0
    }
}

/// `s` begins with a minus.
pub open spec fn is_negative(s: Seq<char>) -> bool {
    s.len() > 0 && s[0] == '-'
}

/// `s` without the sign at its head.
pub open spec fn unsigned(s: Seq<char>) -> Seq<char> {
    s.skip(sign_len(s) as int)
}

/// The lower-case form of an ASCII letter; any other character as it is.
pub open spec fn fold(c: char) -> char {
    if 'A' <= c && c <= 'Z' {
        ((c as u32) + 32) as char
    } else {
        c
    }
}

/// `s` is the lower-case word `word`, in letters of either case.
pub open spec fn is_word(s: Seq<char>, word: Seq<char>) -> bool {
    s.len() == word.len() && forall|i: int| 0 <= i < s.len() ==> fold(#[trigger] s[i]) == word[i]
}

/// `u` writes infinity.
pub open spec fn is_infinity(u: Seq<char>) -> bool {
    is_word(u, "inf"@) || is_word(u, "infinity"@)
}

/// `u` writes what is no number.
pub open spec fn is_nan(u: Seq<char>) -> bool {
    is_word(u, "nan"@)
}

/// The digits before the point.
pub open spec fn int_digits(u: Seq<char>) -> Seq<char> {
    u.take(leading_digits(u) as int)
}

/// What follows the digits before the point.
pub open spec fn after_int(u: Seq<char>) -> Seq<char> {
    u.skip(leading_digits(u) as int)
}

/// A point follows the digits at the head of `u`.
pub open spec fn has_point(u: Seq<char>) -> bool {
    after_int(u).len() > 0 && after_int(u)[0] == '.'
}

/// What follows the point; where there is no point, what follows the digits.
pub open spec fn after_point(u: Seq<char>) -> Seq<char> {
    if has_point(u) {
        after_int(u).skip(1)
    } else {
        after_int(u)
    }
}

/// The digits after the point; none where there is no point.
pub open spec fn frac_digits(u: Seq<char>) -> Seq<char> {
    if has_point(u) {
        after_point(u).take(leading_digits(after_point(u)) as int)
    } else {
        Seq::empty()
    }
}

/// What follows the digits and the point: the exponent, if there is one.
pub open spec fn exponent_part(u: Seq<char>) -> Seq<char> {
    after_point(u).skip(frac_digits(u).len() as int)
}

/// `e` is empty, or an exponent: the letter `e`, an optional sign, and at
/// least one digit.
pub open spec fn is_exponent(e: Seq<char>) -> bool {
    e.len() == 0 || ((e[0] == 'e' || e[0] == 'E') && unsigned(e.skip(1)).len() >= 1 && all_digits(
        unsigned(e.skip(1)),
    ))
}

/// The number that the exponent `e` writes; 0 for none.
pub open spec fn exponent_value(e: Seq<char>) -> int {
    if e.len() == 0 {
        0
    } else if is_negative(e.skip(1)) {
        -(digits_value(unsigned(e.skip(1))) as int)
    } else {
        digits_value(unsigned(e.skip(1))) as int
    }
}

/// `u` writes a number in digits: at least one digit before or after the
/// point, and nothing behind them but an exponent.
pub open spec fn is_finite_number(u: Seq<char>) -> bool {
    int_digits(u).len() + frac_digits(u).len() >= 1 && is_exponent(exponent_part(u))
}

/// `s` writes a number.
pub open spec fn is_number(s: Seq<char>) -> bool {
    is_infinity(unsigned(s)) || is_nan(unsigned(s)) || is_finite_number(unsigned(s))
}

/// The floor of `d` times `scale` times ten to the power `shift`.
pub open spec fn shifted(d: nat, scale: nat, shift: int) -> nat {
    if shift >= 0 {
        d * scale * pow10(shift as nat)
    } else {
        (d * scale) / pow10((-shift) as nat)
    }
}

/// All digits of `u`, those before the point and those after it.
pub open spec fn mantissa(u: Seq<char>) -> Seq<char> {
    int_digits(u) + frac_digits(u)
}

/// The power of ten by which the number of all digits of `u` is to be
/// taken: the exponent, less the number of digits after the point.
pub open spec fn shift_of(u: Seq<char>) -> int {
    exponent_value(exponent_part(u)) - frac_digits(u).len()
}

/// `n`, or the greatest `u64` where `n` does not fit.
pub open spec fn saturate(n: nat) -> u64 {
    if n > u64::MAX {
        u64::MAX
    } else {
        n as u64
    }
}

/// What the number `s` times `scale` comes to: zero for a negative number
/// and for `nan`, the greatest `u64` for infinity, else the floor of the
/// exact product, or the greatest `u64` where that does not fit.
pub open spec fn scaled_value(s: Seq<char>, scale: nat) -> u64 {
    if is_negative(s) || is_nan(unsigned(s)) {
        0
    } else if is_infinity(unsigned(s)) {
        u64::MAX
    } else {
        saturate(shifted(digits_value(mantissa(unsigned(s))), scale, shift_of(unsigned(s))))
    }
}

/// Powers of ten are positive.
pub proof fn lemma_pow10_positive(n: nat)
    ensures
        pow10(n) > 0,
    decreases n,
{
    if n > 0 {
        lemma_pow10_positive((n - 1) as nat);
    }
}

/// The power of a sum is the product of the powers.
pub proof fn lemma_pow10_add(a: nat, b: nat)
    ensures
        pow10(a + b) == pow10(a) * pow10(b),
    decreases a,
{
    if a == 0 {
        assert(pow10(0) == 1);
        assert(1 * pow10(b) == pow10(b));
    } else {
        lemma_pow10_add((a - 1) as nat, b);
        let x = pow10((a - 1) as nat) as int;
        let y = pow10(b) as int;
        assert(pow10(a + b) == 10 * pow10((a + b - 1) as nat));
        assert(10 * (x * y) == (10 * x) * y) by (nonlinear_arith);
    }
}

/// A greater power of ten is no smaller.
pub proof fn lemma_pow10_monotonic(a: nat, b: nat)
    requires
        a <= b,
    ensures
        pow10(a) <= pow10(b),
    decreases b,
{
    if a < b {
        lemma_pow10_monotonic(a, (b - 1) as nat);
        lemma_pow10_positive((b - 1) as nat);
    }
}

/// Ten to the thirteenth is more than the greatest scale, and ten to the
/// twentieth more than the greatest `u64`.
pub proof fn lemma_pow10_bounds()
    ensures
        pow10(13) == 10000000000000,
        pow10(13) > MAX_SCALE,
        pow10(20) == 100000000000000000000,
        pow10(20) > u64::MAX,
{
    reveal_with_fuel(pow10, 21);
}

/// The leading digits are no more than the characters, all of them are
/// digits, and the character behind them, if any, is none.
pub proof fn lemma_leading_digits(s: Seq<char>)
    ensures
        leading_digits(s) <= s.len(),
        all_digits(s.take(leading_digits(s) as int)),
        leading_digits(s) < s.len() ==> !is_digit(s[leading_digits(s) as int]),
    decreases s.len(),
{
    if s.len() > 0 && is_digit(s[0]) {
        let t = s.drop_first();
        lemma_leading_digits(t);
        let n = leading_digits(t) as int;
        assert forall|i: int| 0 <= i < n + 1 implies is_digit(#[trigger] s.take(n + 1)[i]) by {
            if i > 0 {
                assert(s.take(n + 1)[i] == t.take(n)[i - 1]);
            }
        }
    }
}

/// A prefix of a digit text writes a number that is no greater.
pub proof fn lemma_digits_value_prefix(s: Seq<char>, i: int)
    requires
        all_digits(s),
        0 <= i <= s.len(),
    ensures
        digits_value(s.take(i)) <= digits_value(s),
    decreases s.len(),
{
    if i == s.len() {
        assert(s.take(i) =~= s);
    } else {
        let t = s.drop_last();
        assert(t.take(i) =~= s.take(i));
        lemma_digits_value_prefix(t, i);
        assert(is_digit(s[s.len() - 1]));
    }
}

/// The number splits at every place: the digits before the place, taken by
/// the power of ten of what follows, and the digits from the place on.
pub proof fn lemma_digits_value_split(s: Seq<char>, k: int)
    requires
        all_digits(s),
        0 <= k <= s.len(),
    ensures
        digits_value(s) == digits_value(s.take(k)) * pow10((s.len() - k) as nat) + digits_value(
            s.skip(k),
        ),
    decreases s.len(),
{
    if k == s.len() {
        assert(s.take(k) =~= s);
        assert(s.skip(k).len() == 0);
        assert(pow10(0) == 1);
        assert(digits_value(s) * 1 == digits_value(s));
    } else {
        let t = s.drop_last();
        assert forall|i: int| 0 <= i < t.len() implies is_digit(#[trigger] t[i]) by {
            assert(t[i] == s[i]);
        }
        lemma_digits_value_split(t, k);
        assert(t.take(k) =~= s.take(k));
        assert(s.skip(k).drop_last() =~= t.skip(k));
        assert(s.skip(k).last() == s.last());
        let a = digits_value(s.take(k)) as int;
        let p = pow10((s.len() - 1 - k) as nat) as int;
        let b = digits_value(t.skip(k)) as int;
        let low = digit_of(s.last()) as int;
        assert(pow10((s.len() - k) as nat) == 10 * p);
        assert(digits_value(t) == a * p + b);
        assert(digits_value(s) == digits_value(t) * 10 + low);
        assert(digits_value(s.skip(k)) == b * 10 + low);
        assert((a * p + b) * 10 + low == a * (10 * p) + (b * 10 + low)) by (nonlinear_arith);
    }
}

/// A text of `n` digits writes a number below ten to the `n`.
pub proof fn lemma_digits_value_bound(s: Seq<char>)
    requires
        all_digits(s),
    ensures
        digits_value(s) < pow10(s.len()),
    decreases s.len(),
{
    if s.len() > 0 {
        let t = s.drop_last();
        assert forall|i: int| 0 <= i < t.len() implies is_digit(#[trigger] t[i]) by {
            assert(t[i] == s[i]);
        }
        lemma_digits_value_bound(t);
        assert(is_digit(s[s.len() - 1]));
    }
}

/// Dividing by ten after a division is dividing by ten times the divisor.
pub proof fn lemma_carry_step(d: int, scale: int, v: int, p: int)
    requires
        0 <= d,
        0 <= scale,
        0 <= v,
        0 < p,
    ensures
        ((d * p + v) * scale) / (p * 10) == (d * scale + (v * scale) / p) / 10,
{
    let x = (d * p + v) * scale;
    assert(x == (v * scale) + (d * scale) * p) by (nonlinear_arith)
        requires
            x == (d * p + v) * scale,
    ;
    assert(0 <= v * scale) by (nonlinear_arith)
        requires
            0 <= v,
            0 <= scale,
    ;
    assert(0 <= x) by (nonlinear_arith)
        requires
            x == (d * p + v) * scale,
            0 <= d,
            0 <= scale,
            0 <= v,
            0 < p,
    ;
    lemma_div_denominator(x, p, 10);
    lemma_hoist_over_denominator(v * scale, d * scale, p as nat);
}

/// The whole part comes out of a division by a power of ten unchanged.
pub proof fn lemma_split_scaled(a: int, b: int, scale: int, p: int)
    requires
        0 <= a,
        0 <= b,
        0 <= scale,
        0 < p,
    ensures
        ((a * p + b) * scale) / p == a * scale + (b * scale) / p,
{
    assert((a * p + b) * scale == (b * scale) + (a * scale) * p) by (nonlinear_arith);
    lemma_hoist_over_denominator(b * scale, a * scale, p as nat);
}

/// The number of leading characters of `s` that are digits.
pub fn count_digits(s: &[char]) -> (n: usize)
    ensures
        n == leading_digits(s@),
        n <= s@.len(),
{
    let mut i: usize = 0;
    assert(s@.skip(0) =~= s@);
    while i < s.len() && '0' <= s[i] && s[i] <= '9'
        invariant
            i <= s@.len(),
            leading_digits(s@) == i + leading_digits(s@.skip(i as int)),
        decreases s@.len() - i,
    {
        proof {
            let t = s@.skip(i as int);
            assert(t[0] == s@[i as int]);
            assert(t.drop_first() =~= s@.skip(i + 1));
        }
        i = i + 1;
    }
    proof {
        let t = s@.skip(i as int);
        if i < s@.len() {
            assert(t[0] == s@[i as int]);
        }
    }
    i
}

/// Whether every character of `s` is a digit.
pub fn only_digits(s: &[char]) -> (r: bool)
    ensures
        r == all_digits(s@),
{
    let n: usize = count_digits(s);
    proof {
        lemma_leading_digits(s@);
        if n == s@.len() {
            assert(s@.take(n as int) =~= s@);
        }
    }
    n == s.len()
}

/// The number that the digit `c` stands for.
fn digit_value(c: char) -> (d: u64)
    requires
        is_digit(c),
    ensures
        d == digit_of(c),
        d <= 9,
{
    (c as u32 - 48) as u64
}

/// The number that the digits `d` write, where it fits.
fn digits_to_u64(d: &[char]) -> (r: Option<u64>)
    requires
        all_digits(d@),
    ensures
        match r {
            Some(v) => v == digits_value(d@),
            None => digits_value(d@) > u64::MAX,
        },
{
    let mut acc: u64 = 0;
    let mut i: usize = 0;
    assert(d@.take(0).len() == 0);
    while i < d.len()
        invariant
            i <= d@.len(),
            all_digits(d@),
            acc == digits_value(d@.take(i as int)),
        decreases d@.len() - i,
    {
        proof {
            let t = d@.take(i + 1);
            assert(t.last() == d@[i as int]);
            assert(t.drop_last() =~= d@.take(i as int));
            assert(is_digit(d@[i as int]));
            lemma_digits_value_prefix(d@, i + 1);
        }
        let digit: u64 = digit_value(d[i]);
        if acc > (u64::MAX - digit) / 10 {
            return None;
        }
        acc = acc * 10 + digit;
        i = i + 1;
    }
    proof {
        assert(d@.take(i as int) =~= d@);
    }
    Some(acc)
}

/// The number that the digits `d` write, or `EXPONENT_CAP` where it is that
/// much or more.
fn digits_capped(d: &[char]) -> (r: u128)
    requires
        all_digits(d@),
    ensures
        r <= EXPONENT_CAP,
        r < EXPONENT_CAP ==> r == digits_value(d@),
        r == EXPONENT_CAP ==> digits_value(d@) >= EXPONENT_CAP,
{
    let mut acc: u128 = 0;
    let mut i: usize = 0;
    assert(d@.take(0).len() == 0);
    while i < d.len()
        invariant
            i <= d@.len(),
            all_digits(d@),
            acc < EXPONENT_CAP,
            acc == digits_value(d@.take(i as int)),
        decreases d@.len() - i,
    {
        proof {
            let t = d@.take(i + 1);
            assert(t.last() == d@[i as int]);
            assert(t.drop_last() =~= d@.take(i as int));
            assert(is_digit(d@[i as int]));
            lemma_digits_value_prefix(d@, i + 1);
        }
        let digit: u128 = digit_value(d[i]) as u128;
        let next: u128 = acc * 10 + digit;
        if next >= EXPONENT_CAP {
            return EXPONENT_CAP;
        }
        acc = next;
        i = i + 1;
    }
    proof {
        assert(d@.take(i as int) =~= d@);
    }
    acc
}

/// The floor of `0.d` times `scale`, for the digits `d` after a point.
fn frac_scaled(d: &[char], scale: u64) -> (r: u64)
    requires
        all_digits(d@),
        scale <= MAX_SCALE,
    ensures
        r == (digits_value(d@) * (scale as nat)) / pow10(d@.len()),
        r <= scale,
{
    let len: usize = d.len();
    let mut carry: u64 = 0;
    let mut i: usize = len;
    proof {
        assert(d@.skip(len as int).len() == 0);
        assert(0int * (scale as int) == 0);
        assert(pow10(0) == 1);
    }
    while i > 0
        invariant
            len == d@.len(),
            i <= len,
            all_digits(d@),
            scale <= MAX_SCALE,
            carry <= scale,
            carry == (digits_value(d@.skip(i as int)) * (scale as nat)) / pow10((len - i) as nat),
        decreases i,
    {
        proof {
            assert(is_digit(d@[i - 1]));
        }
        let digit: u64 = digit_value(d[i - 1]);
        proof {
            let t = d@.skip(i - 1);
            let u = d@.skip(i as int);
            assert(t.skip(1) =~= u);
            assert(t.take(1).len() == 1);
            assert(t.take(1).drop_last().len() == 0);
            assert(t.take(1).last() == d@[i - 1]);
            assert(digits_value(t.take(1).drop_last()) == 0);
            assert(digits_value(t.take(1)) == 0 * 10 + digit_of(d@[i - 1]));
            assert forall|j: int| 0 <= j < t.len() implies is_digit(#[trigger] t[j]) by {
                assert(t[j] == d@[i - 1 + j]);
            }
            lemma_digits_value_split(t, 1);
            let p = pow10((len - i) as nat);
            lemma_pow10_positive((len - i) as nat);
            assert(pow10((len - i + 1) as nat) == 10 * p);
            lemma_carry_step(digit as int, scale as int, digits_value(u) as int, p as int);
            assert(p * 10 == 10 * p);
            assert(digit * scale <= 9 * scale && 9 * scale <= 9 * MAX_SCALE) by (nonlinear_arith)
                requires
                    digit <= 9,
                    scale <= MAX_SCALE,
            ;
            assert((digit as int * scale as int + carry as int) / 10 <= scale);
        }
        carry = (digit * scale + carry) / 10;
        i = i - 1;
    }
    proof {
        assert(d@.skip(0) =~= d@);
    }
    carry
}

/// Whether `s` is the lower-case word `word`, in letters of either case.
fn word_is(s: &[char], word: &str) -> (r: bool)
    ensures
        r == is_word(s@, word@),
{
    let w = chars_of(word);
    if s.len() != w.len() {
        return false;
    }
    let mut i: usize = 0;
    while i < s.len()
        invariant
            i <= s@.len(),
            s@.len() == w@.len(),
            w@ == word@,
            forall|k: int| 0 <= k < i ==> fold(#[trigger] s@[k]) == w@[k],
        decreases s@.len() - i,
    {
        let c: char = s[i];
        let folded: char = if 'A' <= c && c <= 'Z' {
            char_from_u32(c as u32 + 32)
        } else {
            c
        };
        if folded != w[i] {
            return false;
        }
        i = i + 1;
    }
    true
}

/// The lower-case letter with the code `code`.
fn char_from_u32(code: u32) -> (c: char)
    requires
        97 <= code <= 122,
    ensures
        c == code as char,
{
    code as u8 as char
}

/// `a` times ten to the power `z`, where it fits.
fn times_pow10(a: u64, z: u128) -> (r: Option<u64>)
    ensures
        match r {
            Some(v) => v == a * pow10(z as nat),
            None => a * pow10(z as nat) > u64::MAX,
        },
{
    let mut acc: u64 = a;
    let mut k: u128 = z;
    while k > 0 && acc > 0
        invariant
            acc * pow10(k as nat) == a * pow10(z as nat),
        decreases k,
    {
        proof {
            let p = pow10((k - 1) as nat) as int;
            lemma_pow10_positive((k - 1) as nat);
            assert(pow10(k as nat) == 10 * p);
            assert((acc as int * 10) * p == acc as int * (10 * p)) by (nonlinear_arith);
            assert((acc as int * 10) * p >= acc as int * 10) by (nonlinear_arith)
                requires
                    p >= 1,
                    acc >= 0,
            ;
        }
        if acc > u64::MAX / 10 {
            return None;
        }
        acc = acc * 10;
        k = k - 1;
    }
    proof {
        if k == 0 {
            assert(pow10(0) == 1);
            assert(acc * 1 == acc);
        } else {
            assert(0 * pow10(k as nat) == 0);
        }
    }
    Some(acc)
}

/// The floor of `c` over ten to the power `k`.
fn over_pow10(c: u64, k: u128) -> (r: u64)
    ensures
        r == (c as nat) / pow10(k as nat),
        r <= c,
{
    let mut acc: u64 = c;
    let mut j: u128 = k;
    while j > 0 && acc > 0
        invariant
            (acc as nat) / pow10(j as nat) == (c as nat) / pow10(k as nat),
            acc <= c,
        decreases j,
    {
        proof {
            let p = pow10((j - 1) as nat) as int;
            lemma_pow10_positive((j - 1) as nat);
            assert(pow10(j as nat) == 10 * p);
            lemma_div_denominator(acc as int, 10, p);
        }
        acc = acc / 10;
        j = j - 1;
    }
    proof {
        if j == 0 {
            assert(pow10(0) == 1);
            assert((acc as nat) / 1 == acc);
        } else {
            assert(acc == 0);
            lemma_pow10_positive(j as nat);
            lemma_basic_div(0, pow10(j as nat) as int);
            assert((acc as nat) / pow10(j as nat) == 0);
        }
    }
    acc
}

/// The product of `whole` and `scale` with `part` added, or the greatest
/// `u64` where that does not fit or `whole` did not.
fn combine(whole: Option<u64>, scale: u64, part: u64, Ghost(w): Ghost<nat>) -> (r: u64)
    requires
        1 <= scale <= MAX_SCALE,
        match whole {
            Some(v) => v == w,
            None => w > u64::MAX,
        },
    ensures
        r == saturate(w * (scale as nat) + (part as nat)),
{
    match whole {
        None => {
            proof {
                assert(w * scale >= w) by (nonlinear_arith)
                    requires
                        scale >= 1,
                        w >= 0,
                ;
            }
            u64::MAX
        },
        Some(v) => {
            assert(v * scale <= 0xffff_ffff_ffff_ffff * MAX_SCALE) by (nonlinear_arith)
                requires
                    v <= 0xffff_ffff_ffff_ffff,
                    scale <= MAX_SCALE,
            ;
            let total: u128 = (v as u128) * (scale as u128) + (part as u128);
            if total > u64::MAX as u128 {
                u64::MAX
            } else {
                total as u64
            }
        },
    }
}

/// The floor of the number of the digits `all`, times `scale`, times ten to
/// the power of the exponent less `frac_len`; the greatest `u64` where that
/// does not fit. The exponent is `exp`, negative with `exp_negative`; where
/// `exp` is the cap, the exponent is the cap or more.
fn magnitude(
    all: &[char],
    frac_len: usize,
    exp_negative: bool,
    exp: u128,
    Ghost(x): Ghost<nat>,
    scale: u64,
) -> (r: u64)
    requires
        all_digits(all@),
        frac_len <= all@.len(),
        1 <= scale <= MAX_SCALE,
        exp <= EXPONENT_CAP,
        exp < EXPONENT_CAP ==> x == exp,
        exp == EXPONENT_CAP ==> x >= EXPONENT_CAP,
    ensures
        r == saturate(
            shifted(
                digits_value(all@),
                scale as nat,
                (if exp_negative {
                    -(x as int)
                } else {
                    x as int
                }) - frac_len,
            ),
        ),
{
    let n: usize = all.len();
    let whole = digits_to_u64(all);
    let ghost d = digits_value(all@);
    let ghost sc = scale as nat;
    let ghost shift = (if exp_negative {
        -(x as int)
    } else {
        x as int
    }) - frac_len;
    proof {
        lemma_digits_value_bound(all@);
        lemma_pow10_bounds();
        assert(d * sc >= 0) by (nonlinear_arith)
            requires
                d >= 0,
                sc >= 0,
        ;
    }
    let is_zero: bool = match whole {
        Some(v) => v == 0,
        None => false,
    };
    if exp == EXPONENT_CAP {
        if is_zero {
            proof {
                assert(d * sc == 0) by (nonlinear_arith)
                    requires
                        d == 0,
                ;
                if shift >= 0 {
                    assert(0 * pow10(shift as nat) == 0);
                } else {
                    lemma_pow10_positive((-shift) as nat);
                    lemma_basic_div(0, pow10((-shift) as nat) as int);
                }
            }
            return 0;
        }
        if exp_negative {
            proof {
                let m = (-shift) as nat;
                lemma_pow10_add(n as nat, 13);
                lemma_pow10_monotonic((n + 13) as nat, m);
                lemma_pow10_positive(n as nat);
                assert(d * sc < pow10(n as nat) * pow10(13)) by (nonlinear_arith)
                    requires
                        d < pow10(n as nat),
                        sc < pow10(13),
                        0 <= d,
                        1 <= sc,
                        pow10(n as nat) > 0,
                ;
                lemma_basic_div((d * sc) as int, pow10(m) as int);
            }
            return 0;
        } else {
            proof {
                lemma_pow10_monotonic(20, shift as nat);
                let p = pow10(shift as nat) as int;
                assert(d * sc * p > 0xffff_ffff_ffff_ffff) by (nonlinear_arith)
                    requires
                        d >= 1,
                        sc >= 1,
                        p > 0xffff_ffff_ffff_ffff,
                ;
            }
            return u64::MAX;
        }
    }
    if !exp_negative && exp >= frac_len as u128 {
        let z: u128 = exp - frac_len as u128;
        let ghost p = pow10(z as nat);
        proof {
            lemma_pow10_positive(z as nat);
            assert(d * sc * p == (d * p) * sc) by (nonlinear_arith);
        }
        match whole {
            None => {
                proof {
                    assert((d * p) * sc >= d) by (nonlinear_arith)
                        requires
                            p >= 1,
                            sc >= 1,
                            d >= 0,
                    ;
                }
                u64::MAX
            },
            Some(a) => {
                let grown = times_pow10(a, z);
                combine(grown, scale, 0, Ghost(d * p))
            },
        }
    } else {
        let m: u128 = if exp_negative {
            frac_len as u128 + exp
        } else {
            frac_len as u128 - exp
        };
        proof {
            assert(m == -shift);
            lemma_pow10_positive(m as nat);
            if m == 0 {
                assert(pow10(0) == 1);
                assert(d * sc * 1 == d * sc) by (nonlinear_arith);
                assert((d * sc) / 1 == d * sc);
            }
            assert(shifted(d, sc, shift) == (d * sc) / pow10(m as nat));
        }
        if m >= n as u128 {
            let carry = frac_scaled(all, scale);
            proof {
                lemma_pow10_add(n as nat, (m - n) as nat);
                lemma_pow10_positive(n as nat);
                lemma_pow10_positive((m - n) as nat);
                lemma_div_denominator(
                    (d * sc) as int,
                    pow10(n as nat) as int,
                    pow10((m - n) as nat) as int,
                );
            }
            over_pow10(carry, m - n as u128)
        } else {
            let q: usize = n - m as usize;
            let head = before(all, q);
            let rest = after(all, q);
            proof {
                assert forall|i: int| 0 <= i < head@.len() implies is_digit(#[trigger] head@[i]) by {
                    assert(head@[i] == all@[i]);
                }
                assert forall|i: int| 0 <= i < rest@.len() implies is_digit(#[trigger] rest@[i]) by {
                    assert(rest@[i] == all@[q + i]);
                }
                lemma_digits_value_split(all@, q as int);
                lemma_split_scaled(
                    digits_value(head@) as int,
                    digits_value(rest@) as int,
                    scale as int,
                    pow10(m as nat) as int,
                );
            }
            let top = digits_to_u64(head);
            let carry = frac_scaled(rest, scale);
            combine(top, scale, carry, Ghost(digits_value(head@)))
        }
    }
}

/// The digits of `a` followed by those of `b`.
fn joined(a: &[char], b: &[char]) -> (r: Vec<char>)
    ensures
        r@ == a@ + b@,
{
    let mut out: Vec<char> = Vec::new();
    let mut i: usize = 0;
    while i < a.len()
        invariant
            i <= a@.len(),
            out@ == a@.take(i as int),
        decreases a@.len() - i,
    {
        out.push(a[i]);
        proof {
            assert(out@ =~= a@.take(i + 1));
        }
        i = i + 1;
    }
    let mut j: usize = 0;
    proof {
        assert(a@.take(i as int) =~= a@);
        assert(out@ =~= a@ + b@.take(0));
    }
    while j < b.len()
        invariant
            j <= b@.len(),
            out@ == a@ + b@.take(j as int),
        decreases b@.len() - j,
    {
        out.push(b[j]);
        proof {
            assert(out@ =~= a@ + b@.take(j + 1));
        }
        j = j + 1;
    }
    proof {
        assert(b@.take(j as int) =~= b@);
    }
    out
}

/// Reads the number `s` and gives what it comes to times `scale`. `None`
/// where `s` writes no number.
pub(crate) fn parse_scaled(s: &[char], scale: u64) -> (r: Option<u64>)
    requires
        1 <= scale <= MAX_SCALE,
    ensures
        r is Some <==> is_number(s@),
        r is Some ==> r->0 == scaled_value(s@, scale as nat),
{
    let len: usize = s.len();
    let sign: usize = if len > 0 && (s[0] == '+' || s[0] == '-') {
        1
    } else {
        0
    };
    let negative: bool = len > 0 && s[0] == '-';
    let u = after(s, sign);
    if word_is(u, "nan") {
        return Some(0);
    }
    if word_is(u, "inf") || word_is(u, "infinity") {
        return Some(
            if negative {
                0
            } else {
                u64::MAX
            },
        );
    }
    let n_int: usize = count_digits(u);
    let rest = after(u, n_int);
    let point: bool = rest.len() > 0 && rest[0] == '.';
    let ap = if point {
        after(rest, 1)
    } else {
        rest
    };
    let n_frac: usize = if point {
        count_digits(ap)
    } else {
        0
    };
    let ep = after(ap, n_frac);
    let int_part = before(u, n_int);
    let frac_part = before(ap, n_frac);
    proof {
        lemma_leading_digits(u@);
        lemma_leading_digits(ap@);
        assert(int_part@ =~= int_digits(u@));
        assert(frac_part@ =~= frac_digits(u@));
        assert(ep@ =~= exponent_part(u@));
    }
    if n_int == 0 && n_frac == 0 {
        return None;
    }
    let mut exp_negative: bool = false;
    let mut exp: u128 = 0;
    let ghost mut x: nat = 0;
    if ep.len() > 0 {
        if ep[0] != 'e' && ep[0] != 'E' {
            return None;
        }
        let e1 = after(ep, 1);
        let esign: usize = if e1.len() > 0 && (e1[0] == '+' || e1[0] == '-') {
            1
        } else {
            0
        };
        exp_negative = e1.len() > 0 && e1[0] == '-';
        let ed = after(e1, esign);
        if ed.len() == 0 || !only_digits(ed) {
            return None;
        }
        exp = digits_capped(ed);
        proof {
            x = digits_value(ed@);
        }
    }
    if negative {
        return Some(0);
    }
    let all = joined(int_part, frac_part);
    proof {
        assert forall|i: int| 0 <= i < all@.len() implies is_digit(#[trigger] all@[i]) by {
            if i < int_part@.len() {
                assert(all@[i] == int_part@[i]);
            } else {
                assert(all@[i] == frac_part@[i - int_part@.len()]);
            }
        }
        assert(all@ == mantissa(u@));
    }
    Some(magnitude(all.as_slice(), n_frac, exp_negative, exp, Ghost(x), scale))
}

} // verus!

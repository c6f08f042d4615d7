//! Building of text: joining pieces, and writing whole numbers in decimal.

use vstd::prelude::*;
use vstd::string::*;
use vstd::utf8::*;
use crate::text::bytes_eq;

verus! {

/// The ten digits, in order.
pub open spec fn digit_chars() -> Seq<char> {
    "0123456789"@
}

/// The decimal digits of `n`, without leading zeros.
pub open spec fn decimal_text(n: nat) -> Seq<char>
    decreases n,
{
    if n < 10 {
        seq![digit_chars()[n as int]]
    } else {
        decimal_text(n / 10).push(digit_chars()[(n % 10) as int])
    }
}

/// The decimal form of a whole number with a sign: a minus sign before the
/// digits of a negative number.
pub open spec fn signed_text(n: int) -> Seq<char> {
    if n < 0 {
        "-"@ + decimal_text((-n) as nat)
    } else {
        decimal_text(n as nat)
    }
}

/// Whether two texts are the same.
pub fn str_eq(a: &str, b: &str) -> (r: bool)
    ensures
        r == (a@ == b@),
{
    proof {
        encode_utf8_decode_utf8(a@);
        encode_utf8_decode_utf8(b@);
    }
    bytes_eq(a.as_bytes(), b.as_bytes())
}

/// What `str::to_lowercase` makes of a text.
pub uninterp spec fn lowercase_text(text: Seq<char>) -> Seq<char>;

/// `str::to_lowercase` of std: the contract gives the result a name and
/// claims only that it depends on the text alone.
pub assume_specification[ str::to_lowercase ](s: &str) -> (r: String)
    ensures
        r@ == lowercase_text(s@),
;

/// `String::push` of std: the character is appended to the text.
pub assume_specification[ String::push ](s: &mut String, ch: char)
    ensures
        final(s)@ == old(s)@.push(ch),
;

/// The text made of the characters `chars`.
pub fn text_of(chars: &[char]) -> (r: String)
    ensures
        r@ == chars@,
{
    let mut out = String::new();
    let mut i: usize = 0;
    while i < chars.len()
        invariant
            i <= chars@.len(),
            out@ == chars@.take(i as int),
        decreases chars@.len() - i,
    {
        out.push(chars[i]);
        proof {
            assert(out@ =~= chars@.take(i + 1));
        }
        i = i + 1;
    }
    proof {
        assert(chars@.take(i as int) =~= chars@);
    }
    out
}

/// The characters of `s`.
pub fn chars_of(s: &str) -> (v: Vec<char>)
    ensures
        v@ == s@,
{
    let mut v: Vec<char> = Vec::new();
    for c in it: s.chars()
        invariant
            it.seq() == s@,
            v@ == it.seq().take(it.index() as int),
    {
        v.push(c);
        proof {
            assert(v@ =~= it.seq().take(it.index() + 1));
        }
    }
    proof {
        assert(v@ =~= s@);
    }
    v
}

/// The text `a` followed by the text `b`.
pub fn join2(a: &str, b: &str) -> (r: String)
    ensures
        r@ == a@ + b@,
{
    let mut s = String::from_str(a);
    s.append(b);
    s
}

/// The texts `a`, `b` and `c`, one after the other.
pub fn join3(a: &str, b: &str, c: &str) -> (r: String)
    ensures
        r@ == a@ + b@ + c@,
{
    let mut s = String::from_str(a);
    s.append(b);
    s.append(c);
    s
}

/// The text of the digit `d`.
pub(crate) fn digit_str(d: u64) -> (r: &'static str)
    requires
        d < 10,
    ensures
        r@ == seq![digit_chars()[d as int]],
{
    proof {
        reveal_strlit("0123456789");
        reveal_strlit("0");
        reveal_strlit("1");
        reveal_strlit("2");
        reveal_strlit("3");
        reveal_strlit("4");
        reveal_strlit("5");
        reveal_strlit("6");
        reveal_strlit("7");
        reveal_strlit("8");
        reveal_strlit("9");
    }
    let r: &'static str = if d == 0 {
        "0"
    } else if d == 1 {
        "1"
    } else if d == 2 {
        "2"
    } else if d == 3 {
        "3"
    } else if d == 4 {
        "4"
    } else if d == 5 {
        "5"
    } else if d == 6 {
        "6"
    } else if d == 7 {
        "7"
    } else if d == 8 {
        "8"
    } else {
        "9"
    };
    assert(r@ =~= seq![digit_chars()[d as int]]);
    r
}

/// The decimal digits of `n`.
pub fn u64_to_text(n: u64) -> (r: String)
    ensures
        r@ == decimal_text(n as nat),
    decreases n,
{
    if n < 10 {
        String::from_str(digit_str(n))
    } else {
        let mut s = u64_to_text(n / 10);
        s.append(digit_str(n % 10));
        assert(s@ =~= decimal_text((n / 10) as nat).push(digit_chars()[(n % 10) as int]));
        s
    }
}

/// The decimal form of `n`, with a minus sign where it is negative.
pub fn i32_to_text(n: i32) -> (r: String)
    ensures
        r@ == signed_text(n as int),
{
    if n < 0 {
        let magnitude: u64 = (0 - (n as i64)) as u64;
        let digits = u64_to_text(magnitude);
        join2("-", digits.as_str())
    } else {
        u64_to_text(n as u64)
    }
}

} // verus!

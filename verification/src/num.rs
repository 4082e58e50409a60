//! Rendering of unsigned integers as decimal digit strings, with optional
//! zero padding. This is the shared machinery under date and amount
//! formatting.

use vstd::prelude::*;
use vstd::string::StringExecFns;

verus! {

/// 10 to the power `e`.
pub open spec fn pow10(e: nat) -> int
    decreases e,
{
    if e == 0 {
        1
    } else {
        10 * pow10((e - 1) as nat)
    }
}

pub proof fn lemma_pow10_positive(e: nat)
    ensures
        pow10(e) >= 1,
    decreases e,
{
    if e > 0 {
        lemma_pow10_positive((e - 1) as nat);
    }
}

pub proof fn lemma_pow10_monotone(a: nat, b: nat)
    requires
        a <= b,
    ensures
        pow10(a) <= pow10(b),
    decreases b,
{
    if a < b {
        lemma_pow10_monotone(a, (b - 1) as nat);
        lemma_pow10_positive((b - 1) as nat);
    }
}

/// The character for one decimal digit value.
pub open spec fn digit_char(d: int) -> char {
    if d == 0 {
        '0'
    } else if d == 1 {
        '1'
    } else if d == 2 {
        '2'
    } else if d == 3 {
        '3'
    } else if d == 4 {
        '4'
    } else if d == 5 {
        '5'
    } else if d == 6 {
        '6'
    } else if d == 7 {
        '7'
    } else if d == 8 {
        '8'
    } else {
        '9'
    }
}

/// Decimal digits of `n`, most significant first, without sign or leading
/// zeros (zero itself is the single digit '0').
pub open spec fn spec_digits(n: int) -> Seq<char>
    decreases n,
{
    if n < 10 {
        seq![digit_char(n)]
    } else {
        spec_digits(n / 10).push(digit_char(n % 10))
    }
}

/// A number below `pow10(w)` has at most `w` digits.
pub proof fn lemma_digits_len_bound(n: int, w: nat)
    requires
        0 <= n < pow10(w),
        1 <= w,
    ensures
        spec_digits(n).len() <= w,
    decreases w,
{
    if n >= 10 {
        if w == 1 {
            assert(false);
        } else {
            assert(pow10(w) == 10 * pow10((w - 1) as nat));
            assert(n / 10 < pow10((w - 1) as nat));
            lemma_digits_len_bound(n / 10, (w - 1) as nat);
        }
    }
}

/// Every `u128` has at most 39 digits.
pub proof fn lemma_u128_digits_len(n: u128)
    ensures
        1 <= spec_digits(n as int).len() <= 39,
{
    assert(n < pow10(39)) by {
        reveal_with_fuel(pow10, 40);
    }
    lemma_digits_len_bound(n as int, 39);
}

/// `k` zero characters (none if `k` is not positive).
pub open spec fn spec_zeros(k: int) -> Seq<char> {
    if k <= 0 {
        Seq::empty()
    } else {
        Seq::new(k as nat, |i| '0')
    }
}

/// Digits of `n` left-padded with zeros to at least `w` characters.
pub open spec fn spec_padded(n: int, w: int) -> Seq<char> {
    spec_zeros(w - spec_digits(n).len()) + spec_digits(n)
}

/// The one-character string for a digit value.
fn digit_str(d: u8) -> (r: &'static str)
    requires
        d < 10,
    ensures
        r@ == seq![digit_char(d as int)],
{
    proof {
        reveal_strlit("0");
        reveal_strlit("1");
        reveal_strlit("2");
        reveal_strlit("3");
        reveal_strlit("4");
        reveal_strlit("5");
        reveal_strlit("6");
        reveal_strlit("7");
        reveal_strlit("8");
        reveal_strlit("9");
    }
    let r: &'static str = if d == 0 {
        "0"
    } else if d == 1 {
        "1"
    } else if d == 2 {
        "2"
    } else if d == 3 {
        "3"
    } else if d == 4 {
        "4"
    } else if d == 5 {
        "5"
    } else if d == 6 {
        "6"
    } else if d == 7 {
        "7"
    } else if d == 8 {
        "8"
    } else {
        "9"
    };
    proof {
        assert(r@ =~= seq![digit_char(d as int)]);
    }
    r
}

/// The decimal digit string of `n`.
pub fn digits_string(n: u128) -> (r: String)
    ensures
        r@ == spec_digits(n as int),
    decreases n,
{
    let mut r: String = if n >= 10 {
        digits_string(n / 10)
    } else {
        String::new()
    };
    r.append(digit_str((n % 10) as u8));
    proof {
        assert(r@ =~= spec_digits(n as int));
    }
    r
}

/// How many decimal digits `n` has.
pub fn count_digits(n: u128) -> (r: usize)
    ensures
        r == spec_digits(n as int).len(),
    decreases n,
{
    if n < 10 {
        1
    } else {
        let c = count_digits(n / 10);
        proof {
            lemma_u128_digits_len(n / 10);
        }
        1 + c
    }
}

/// The digit string of `n`, zero-padded on the left to at least `width`
/// characters.
pub fn padded_string(n: u128, width: usize) -> (r: String)
    ensures
        r@ == spec_padded(n as int, width as int),
{
    let c = count_digits(n);
    let mut r = String::new();
    let mut k = c;
    while k < width
        invariant
            c == spec_digits(n as int).len(),
            c <= k,
            k <= width || k == c,
            r@ =~= spec_zeros(k - c),
        decreases width - k,
    {
        r.append("0");
        proof {
            reveal_strlit("0");
            assert(r@ =~= spec_zeros(k + 1 - c));
        }
        k = k + 1;
    }
    let ds = digits_string(n);
    r.append(ds.as_str());
    proof {
        assert(r@ =~= spec_padded(n as int, width as int));
    }
    r
}

} // verus!

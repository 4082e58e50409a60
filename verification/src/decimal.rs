//! Exact base-10 amounts. An amount is a sign, a count of units and a
//! scale: its value is `units / 10^scale`, negated when the sign is set.
//! Parsing and rendering keep the scale, so an input of `7.00` renders as
//! `7.00` again and its negation as `-7.00`, with no rounding anywhere.

use vstd::prelude::*;
use vstd::string::StringExecFns;
use vstd::string::StrSliceExecFns;
use crate::num::pow10;
use crate::num::lemma_pow10_positive;
use crate::num::lemma_pow10_monotone;
use crate::num::spec_digits;
use crate::num::spec_padded;
use crate::num::digits_string;
use crate::num::padded_string;

verus! {

/// Greatest number of digits (integral and fractional together) an
/// amount may carry.
pub const MAX_DIGITS: usize = 38;

/// An exact decimal amount: `units / 10^scale`, negated when `negative`
/// is set. The sign is kept apart from the units, so negative zero is
/// representable and renders with its minus sign, as an exact negation
/// of a zero amount should.
#[derive(Clone, Copy, PartialEq, Eq, Structural, Debug)]
pub struct Decimal {
    pub negative: bool,
    pub units: u128,
    pub scale: usize,
}

impl Decimal {
    /// Well-formed: the digits fit the parser's bound.
    pub open spec fn wf(self) -> bool {
        self.units < pow10(MAX_DIGITS as nat) && self.scale <= MAX_DIGITS
    }

    /// The signed numerator of the amount over the denominator
    /// `10^scale`: the exact value is `spec_signed_units(self) / 10^scale`.
    pub open spec fn spec_signed_units(self) -> int {
        if self.negative {
            -(self.units as int)
        } else {
            self.units as int
        }
    }

    /// The arithmetic negation: same units, same scale, opposite sign.
    pub open spec fn spec_neg(self) -> Decimal {
        Decimal { negative: !self.negative, units: self.units, scale: self.scale }
    }

    pub fn neg(&self) -> (r: Decimal)
        ensures
            r == self.spec_neg(),
    {
        Decimal { negative: !self.negative, units: self.units, scale: self.scale }
    }
}

/// Negation is its own inverse.
pub proof fn lemma_neg_involutive(d: Decimal)
    ensures
        d.spec_neg().spec_neg() == d,
{
}

/// An amount and its negation balance: their signed units sum to zero and
/// they share one scale, so the two values sum to exactly zero.
pub proof fn lemma_double_entry(d: Decimal)
    ensures
        d.spec_signed_units() + d.spec_neg().spec_signed_units() == 0,
        d.spec_neg().scale == d.scale,
{
}

/// A decimal digit character.
pub open spec fn is_digit(c: char) -> bool {
    48 <= c as int <= 57
}

/// The numeric value of a digit character.
pub open spec fn digit_val(c: char) -> int {
    c as int - 48
}

/// How many digit characters `s` holds.
pub open spec fn digit_count(s: Seq<char>) -> int
    decreases s.len(),
{
    if s.len() == 0 {
        0
    } else {
        digit_count(s.drop_last()) + if is_digit(s.last()) {
            1int
        } else {
            0int
        }
    }
}

/// How many '.' characters `s` holds.
pub open spec fn dot_count(s: Seq<char>) -> int
    decreases s.len(),
{
    if s.len() == 0 {
        0
    } else {
        dot_count(s.drop_last()) + if s.last() == '.' {
            1int
        } else {
            0int
        }
    }
}

/// Every character of `s` is a digit or a '.'.
pub open spec fn all_amount_chars(s: Seq<char>) -> bool
    decreases s.len(),
{
    s.len() == 0 || (all_amount_chars(s.drop_last()) && (is_digit(s.last()) || s.last() == '.'))
}

/// The integer read from the digit characters of `s` in order, ignoring
/// any '.'.
pub open spec fn units_of(s: Seq<char>) -> int
    decreases s.len(),
{
    if s.len() == 0 {
        0
    } else if is_digit(s.last()) {
        units_of(s.drop_last()) * 10 + digit_val(s.last())
    } else {
        units_of(s.drop_last())
    }
}

/// How many digit characters of `s` stand after its first '.'.
pub open spec fn scale_of(s: Seq<char>) -> int
    decreases s.len(),
{
    if s.len() == 0 {
        0
    } else {
        scale_of(s.drop_last()) + if is_digit(s.last()) && dot_count(s.drop_last()) >= 1 {
            1int
        } else {
            0int
        }
    }
}

/// `s` starts with an explicit sign character.
pub open spec fn has_sign(s: Seq<char>) -> bool {
    s.len() > 0 && (s[0] == '+' || s[0] == '-')
}

/// `s` without its sign character, if it has one.
pub open spec fn body_of(s: Seq<char>) -> Seq<char> {
    if has_sign(s) {
        s.drop_first()
    } else {
        s
    }
}

/// A parsable amount: after an optional sign, only digits and at most
/// one '.', with at least one digit and no more than `MAX_DIGITS` of
/// them.
pub open spec fn valid_amount(s: Seq<char>) -> bool {
    let b = body_of(s);
    all_amount_chars(b) && dot_count(b) <= 1 && 1 <= digit_count(b) <= MAX_DIGITS
}

/// What parsing an amount field yields: the amount for a parsable
/// string, nothing otherwise.
pub open spec fn spec_parse_decimal(s: Seq<char>) -> Option<Decimal> {
    if valid_amount(s) {
        Some(
            Decimal {
                negative: s.len() > 0 && s[0] == '-',
                units: units_of(body_of(s)) as u128,
                scale: scale_of(body_of(s)) as usize,
            },
        )
    } else {
        None
    }
}

/// The character counts of a prefix never exceed those of the whole, and
/// a string of digits and dots has only such prefixes.
proof fn lemma_prefix_counts(s: Seq<char>, k: int)
    requires
        0 <= k <= s.len(),
    ensures
        digit_count(s.take(k)) <= digit_count(s),
        dot_count(s.take(k)) <= dot_count(s),
        all_amount_chars(s) ==> all_amount_chars(s.take(k)),
    decreases s.len(),
{
    if k == s.len() {
        assert(s.take(k) =~= s);
    } else {
        assert(s.take(k) =~= s.drop_last().take(k));
        lemma_prefix_counts(s.drop_last(), k);
    }
}

/// Units, digit counts and scales are never negative, the units stay
/// under `pow10` of the digit count, and the scale never exceeds it.
proof fn lemma_units_bounds(s: Seq<char>)
    ensures
        0 <= digit_count(s),
        0 <= dot_count(s),
        0 <= scale_of(s) <= digit_count(s),
        0 <= units_of(s) < pow10(digit_count(s) as nat),
    decreases s.len(),
{
    if s.len() == 0 {
    } else {
        lemma_units_bounds(s.drop_last());
        if is_digit(s.last()) {
            assert(pow10((digit_count(s.drop_last()) + 1) as nat) == 10 * pow10(
                digit_count(s.drop_last()) as nat,
            ));
        }
    }
}

/// `pow10(MAX_DIGITS)` fits a `u128`.
proof fn lemma_pow10_max_digits_fits()
    ensures
        pow10(MAX_DIGITS as nat) == 100000000000000000000000000000000000000int,
{
    reveal_with_fuel(pow10, 39);
}

/// Parse an amount field. Accepts an optional leading '+' or '-', then
/// digits with at most one '.' among them: at least one digit, at most
/// `MAX_DIGITS`. Anything else — an empty field in particular — is not
/// an amount.
pub fn parse_decimal(s: &str) -> (r: Option<Decimal>)
    ensures
        r == spec_parse_decimal(s@),
        r matches Some(d) ==> d.wf(),
{
    let len = s.unicode_len();
    let mut i: usize = 0;
    let mut negative = false;
    if len > 0 {
        let c0 = s.get_char(0);
        if c0 == '+' || c0 == '-' {
            i = 1;
            negative = c0 == '-';
        }
    }
    let ghost i0 = i as int;
    let ghost body = body_of(s@);
    proof {
        assert(body =~= s@.skip(i0));
        lemma_pow10_max_digits_fits();
    }
    let mut units: u128 = 0;
    let mut scale: usize = 0;
    let mut digits: usize = 0;
    let mut seen_dot = false;
    while i < len
        invariant
            i0 <= i as int <= len,
            len == s@.len(),
            i0 == if has_sign(s@) { 1int } else { 0int },
            body == body_of(s@),
            body == s@.skip(i0),
            negative == (s@.len() > 0 && s@[0] == '-'),
            units == units_of(body.take(i - i0)),
            units < pow10(digits as nat),
            digits == digit_count(body.take(i - i0)),
            digits <= MAX_DIGITS,
            scale == scale_of(body.take(i - i0)),
            scale <= digits,
            dot_count(body.take(i - i0)) == if seen_dot {
                1int
            } else {
                0int
            },
            all_amount_chars(body.take(i - i0)),
            pow10(MAX_DIGITS as nat) == 100000000000000000000000000000000000000int,
        decreases len - i,
    {
        let c = s.get_char(i);
        let ghost pre = body.take(i - i0);
        proof {
            assert(body.take(i + 1 - i0) =~= pre.push(c));
            assert(body.take(i + 1 - i0).drop_last() =~= pre);
        }
        if c == '.' {
            if seen_dot {
                proof {
                    lemma_prefix_counts(body, i + 1 - i0);
                }
                return None;
            }
            seen_dot = true;
        } else {
            let cv = c as u32;
            if 48 <= cv && cv <= 57 {
                if digits == MAX_DIGITS {
                    proof {
                        lemma_prefix_counts(body, i + 1 - i0);
                    }
                    return None;
                }
                proof {
                    lemma_pow10_monotone(digits as nat, (MAX_DIGITS - 1) as nat);
                    assert(pow10(MAX_DIGITS as nat) == 10 * pow10((MAX_DIGITS - 1) as nat));
                }
                let d = (cv - 48) as u128;
                units = units * 10 + d;
                digits = digits + 1;
                if seen_dot {
                    scale = scale + 1;
                }
                proof {
                    assert(pow10(digits as nat) == 10 * pow10((digits - 1) as nat));
                }
            } else {
                proof {
                    lemma_prefix_counts(body, i + 1 - i0);
                }
                return None;
            }
        }
        i = i + 1;
    }
    proof {
        assert(body.take(i - i0) =~= body);
    }
    if digits == 0 {
        return None;
    }
    proof {
        lemma_units_bounds(body);
        lemma_pow10_monotone(digits as nat, MAX_DIGITS as nat);
    }
    Some(Decimal { negative, units, scale })
}

/// The rendered text of an amount: an optional minus sign, the integral
/// digits, and — when the scale is positive — a '.' and exactly `scale`
/// fractional digits.
pub open spec fn spec_dec_string(d: Decimal) -> Seq<char> {
    let sign: Seq<char> = if d.negative {
        seq!['-']
    } else {
        Seq::empty()
    };
    if d.scale == 0 {
        sign + spec_digits(d.units as int)
    } else {
        sign + spec_digits(d.units as int / pow10(d.scale as nat)) + seq!['.'] + spec_padded(
            d.units as int % pow10(d.scale as nat),
            d.scale as int,
        )
    }
}

/// `10^e` as a machine integer.
fn pow10_u128(e: usize) -> (r: u128)
    requires
        e <= MAX_DIGITS,
    ensures
        r == pow10(e as nat),
{
    proof {
        lemma_pow10_max_digits_fits();
    }
    let mut r: u128 = 1;
    let mut j: usize = 0;
    while j < e
        invariant
            j <= e <= MAX_DIGITS,
            r == pow10(j as nat),
            pow10(MAX_DIGITS as nat) == 100000000000000000000000000000000000000int,
        decreases e - j,
    {
        proof {
            lemma_pow10_monotone((j + 1) as nat, MAX_DIGITS as nat);
            assert(pow10((j + 1) as nat) == 10 * pow10(j as nat));
        }
        r = r * 10;
        j = j + 1;
    }
    r
}

impl Decimal {
    /// Render the amount as signed decimal text, keeping the scale.
    pub fn render(&self) -> (r: String)
        requires
            self.wf(),
        ensures
            r@ == spec_dec_string(*self),
    {
        let mut r = String::new();
        if self.negative {
            r.append("-");
        }
        proof {
            reveal_strlit("-");
            assert(r@ =~= if self.negative { seq!['-'] } else { Seq::<char>::empty() });
        }
        if self.scale == 0 {
            let ds = digits_string(self.units);
            r.append(ds.as_str());
        } else {
            let p = pow10_u128(self.scale);
            proof {
                lemma_pow10_positive(self.scale as nat);
            }
            let ip = digits_string(self.units / p);
            r.append(ip.as_str());
            r.append(".");
            proof {
                reveal_strlit(".");
            }
            let fp = padded_string(self.units % p, self.scale);
            r.append(fp.as_str());
        }
        proof {
            assert(r@ =~= spec_dec_string(*self));
        }
        r
    }
}

} // verus!

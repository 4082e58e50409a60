//! Calendar dates as plain year, month and day numbers. A date field is
//! parsed under the configured format pattern by chrono, behind a trusted
//! wrapper; rendering to `YYYY-MM-DD` text is verified here.

use vstd::prelude::*;
use vstd::string::StringExecFns;
use crate::num::spec_padded;
use crate::num::padded_string;

verus! {

/// A calendar date, held as plain numbers.
#[derive(Clone, Copy, PartialEq, Eq, Structural, Debug)]
pub struct Date {
    pub year: i32,
    pub month: u8,
    pub day: u8,
}

impl Date {
    /// The ranges chrono documents for a `NaiveDate`: years from
    /// -262143 to 262142, months from 1, days of month from 1.
    pub open spec fn wf(self) -> bool {
        -262143 <= self.year <= 262142 && 1 <= self.month <= 12 && 1 <= self.day <= 31
    }
}

/// What parsing a date field under a format pattern yields: the (year,
/// month, day) triple, or nothing when the field does not match the
/// pattern.
pub uninterp spec fn date_from_str(s: Seq<char>, fmt: Seq<char>) -> Option<(int, int, int)>;

/// Relies on chrono::NaiveDate::parse_from_str: whether and how a string
/// parses under a format pattern is a function of the two strings alone,
/// and a parsed date lies in the documented year, month and day ranges.
#[verifier::external_body]
pub(crate) fn parse_date(s: &str, fmt: &str) -> (r: Option<Date>)
    ensures
        match r {
            Some(d) => date_from_str(s@, fmt@) == Some(
                (d.year as int, d.month as int, d.day as int),
            ) && d.wf(),
            None => date_from_str(s@, fmt@) is None,
        },
{
    match chrono::NaiveDate::parse_from_str(s, fmt) {
        Ok(d) => Some(
            Date {
                year: chrono::Datelike::year(&d),
                month: chrono::Datelike::month(&d) as u8,
                day: chrono::Datelike::day(&d) as u8,
            },
        ),
        Err(_) => None,
    }
}

/// The rendered text of a date: zero-padded year, month and day joined
/// by '-', with a leading '-' for years before year zero.
pub open spec fn spec_date_string(d: Date) -> Seq<char> {
    let sign: Seq<char> = if d.year < 0 {
        seq!['-']
    } else {
        Seq::empty()
    };
    let y: int = if d.year < 0 {
        -(d.year as int)
    } else {
        d.year as int
    };
    sign + spec_padded(y, 4) + seq!['-'] + spec_padded(d.month as int, 2) + seq!['-']
        + spec_padded(d.day as int, 2)
}

impl Date {
    /// Render the date as `YYYY-MM-DD`.
    pub fn render(&self) -> (r: String)
        requires
            self.wf(),
        ensures
            r@ == spec_date_string(*self),
    {
        let mut r = String::new();
        if self.year < 0 {
            r.append("-");
        }
        proof {
            reveal_strlit("-");
            assert(r@ =~= if self.year < 0 { seq!['-'] } else { Seq::<char>::empty() });
        }
        let y: u128 = if self.year < 0 {
            (-(self.year as i64)) as u128
        } else {
            self.year as u128
        };
        let ys = padded_string(y, 4);
        r.append(ys.as_str());
        r.append("-");
        let ms = padded_string(self.month as u128, 2);
        r.append(ms.as_str());
        r.append("-");
        let ds = padded_string(self.day as u128, 2);
        r.append(ds.as_str());
        proof {
            assert(r@ =~= spec_date_string(*self));
        }
        r
    }
}

} // verus!

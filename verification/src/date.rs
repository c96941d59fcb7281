//! Calendar dates as plain values.
//!
//! The tool stamps notes and directories with dates.  A date here is the
//! triple a caller read off the clock or parsed from input: year, month
//! and day, with the obvious bounds.  Rendering into decimal text, zero
//! padded where file layouts want fixed widths, is verified down to the
//! digits.

use vstd::prelude::*;
use vstd::string::StrSliceExecFns;

verus! {

// ---------------------------------------------------------------------------
// Decimal text
// ---------------------------------------------------------------------------

/// The decimal digits of `n`, most significant first.
pub open spec fn dec_chars(n: nat) -> Seq<char>
    decreases n,
{
    if n < 10 {
        seq![((48 + n) as u8) as char]
    } else {
        dec_chars(n / 10).push(((48 + n % 10) as u8) as char)
    }
}

/// `n` zero padded to at least two digits.
pub open spec fn pad2_chars(n: nat) -> Seq<char> {
    if n < 10 {
        seq!['0'] + dec_chars(n)
    } else {
        dec_chars(n)
    }
}

/// `n` zero padded to at least four digits.
pub open spec fn pad4_chars(n: nat) -> Seq<char> {
    if n < 10 {
        seq!['0', '0', '0'] + dec_chars(n)
    } else if n < 100 {
        seq!['0', '0'] + dec_chars(n)
    } else if n < 1000 {
        seq!['0'] + dec_chars(n)
    } else {
        dec_chars(n)
    }
}

/// Appends one decimal digit to `out`.
fn push_digit(out: &mut String, d: u32)
    requires
        d < 10,
    ensures
        final(out)@ == old(out)@ + seq![((48 + d) as u8) as char],
{
    let digits = "0123456789";
    proof {
        reveal_strlit("0123456789");
        assert(vstd::utf8::is_ascii_chars(digits@)) by {
            assert forall|i: int| 0 <= i < digits@.len() implies (digits@[i] as nat) < 128 by {
                if i == 0 {
                } else if i == 1 {
                } else if i == 2 {
                } else if i == 3 {
                } else if i == 4 {
                } else if i == 5 {
                } else if i == 6 {
                } else if i == 7 {
                } else if i == 8 {
                } else {
                    assert(i == 9);
                }
            }
        }
    }
    let piece = digits.substring_ascii(d as usize, d as usize + 1);
    proof {
        assert(digits@[d as int] == ((48 + d) as u8) as char) by {
            if d == 0 {
            } else if d == 1 {
            } else if d == 2 {
            } else if d == 3 {
            } else if d == 4 {
            } else if d == 5 {
            } else if d == 6 {
            } else if d == 7 {
            } else if d == 8 {
            } else {
                assert(d == 9);
            }
        }
        assert(piece@ =~= seq![((48 + d) as u8) as char]);
    }
    out.append(piece);
}

/// Appends the decimal rendering of `n` to `out`.
pub fn push_dec_str(out: &mut String, n: u32)
    ensures
        final(out)@ == old(out)@ + dec_chars(n as nat),
    decreases n,
{
    if n >= 10 {
        push_dec_str(out, n / 10);
    }
    push_digit(out, n % 10);
    proof {
        assert(out@ =~= old(out)@ + dec_chars(n as nat));
    }
}

/// Appends `n` zero padded to at least two digits.
pub fn push_pad2(out: &mut String, n: u32)
    ensures
        final(out)@ == old(out)@ + pad2_chars(n as nat),
{
    if n < 10 {
        push_digit(out, 0);
    }
    push_dec_str(out, n);
    proof {
        assert(out@ =~= old(out)@ + pad2_chars(n as nat));
    }
}

/// Appends `n` zero padded to at least four digits.
pub fn push_pad4(out: &mut String, n: u32)
    ensures
        final(out)@ == old(out)@ + pad4_chars(n as nat),
{
    if n < 10 {
        push_digit(out, 0);
        push_digit(out, 0);
        push_digit(out, 0);
    } else if n < 100 {
        push_digit(out, 0);
        push_digit(out, 0);
    } else if n < 1000 {
        push_digit(out, 0);
    }
    push_dec_str(out, n);
    proof {
        assert(out@ =~= old(out)@ + pad4_chars(n as nat));
    }
}

// ---------------------------------------------------------------------------
// Dates
// ---------------------------------------------------------------------------

/// A calendar date as plain values: what a caller read off the clock.
#[derive(Clone, Copy, PartialEq, Eq, Structural, Debug)]
pub struct Date {
    year: u32,
    month: u32,
    day: u32,
}

impl Date {
    /// The bounds a date's fields obey.
    pub open spec fn wf(&self) -> bool {
        1 <= self.spec_month() <= 12 && 1 <= self.spec_day() <= 31 && self.spec_year() <= 9999
    }

    /// The year.
    pub closed spec fn spec_year(&self) -> u32 {
        self.year
    }

    /// The month, 1 to 12.
    pub closed spec fn spec_month(&self) -> u32 {
        self.month
    }

    /// The day of the month, 1 to 31.
    pub closed spec fn spec_day(&self) -> u32 {
        self.day
    }

    /// A date from its parts; refused when the parts are out of bounds.
    pub fn new(year: u32, month: u32, day: u32) -> (r: Option<Date>)
        ensures
            (match r {
                Some(d) => d.wf() && d.spec_year() == year && d.spec_month() == month
                    && d.spec_day() == day,
                None => !(1 <= month <= 12 && 1 <= day <= 31 && year <= 9999),
            }),
    {
        if 1 <= month && month <= 12 && 1 <= day && day <= 31 && year <= 9999 {
            Some(Date { year, month, day })
        } else {
            None
        }
    }

    /// The year.
    pub fn year(&self) -> (r: u32)
        ensures
            r == self.spec_year(),
    {
        self.year
    }

    /// The month.
    pub fn month(&self) -> (r: u32)
        ensures
            r == self.spec_month(),
    {
        self.month
    }

    /// The day.
    pub fn day(&self) -> (r: u32)
        ensures
            r == self.spec_day(),
    {
        self.day
    }

    /// The date written `YYYY-MM-DD`.
    pub open spec fn spec_ymd(&self) -> Seq<char> {
        pad4_chars(self.spec_year() as nat) + seq!['-'] + pad2_chars(self.spec_month() as nat)
            + seq!['-'] + pad2_chars(self.spec_day() as nat)
    }

    /// Renders the date as `YYYY-MM-DD`.
    pub fn ymd(&self) -> (r: String)
        ensures
            r@ == self.spec_ymd(),
    {
        let mut out = String::new();
        push_pad4(&mut out, self.year);
        out.append("-");
        push_pad2(&mut out, self.month);
        out.append("-");
        push_pad2(&mut out, self.day);
        proof {
            reveal_strlit("-");
            assert(out@ =~= self.spec_ymd());
        }
        out
    }
}

} // verus!

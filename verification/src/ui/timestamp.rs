//! Points in time and durations, as shown to the user.

use vstd::prelude::*;

use crate::text::{
    all_digits, digits, digits_are_digits, number, padded_decimal, padding_changes_the_width_only,
    push_padded,
};

verus! {

/// A number of microseconds.
#[derive(Debug, Clone, Copy, PartialEq, Eq, Structural)]
pub struct Timestamp(pub i64);

/// Whole milliseconds in a number of microseconds, sign aside.
pub open spec fn whole_milliseconds(microseconds: int) -> int {
    if microseconds < 0 {
        -microseconds / 1000
    } else {
        microseconds / 1000
    }
}

/// A number or its negative.
pub open spec fn with_sign(negative: bool, n: int) -> int {
    if negative {
        -n
    } else {
        n
    }
}

/// The hours, minutes, seconds and milliseconds in a number of microseconds. All of them have
/// the sign of the whole; what is less than a millisecond is dropped.
pub open spec fn clock(microseconds: int) -> (int, int, int, int) {
    let all = whole_milliseconds(microseconds);
    let negative = microseconds < 0;
    (
        with_sign(negative, all / 3_600_000),
        with_sign(negative, all / 60_000 % 60),
        with_sign(negative, all / 1000 % 60),
        with_sign(negative, all % 1000),
    )
}

/// A number of microseconds as hours, minutes, seconds and milliseconds.
pub open spec fn timestamp_text(microseconds: int) -> Seq<char> {
    let (hours, minutes, seconds, milliseconds) = clock(microseconds);
    padded_decimal(hours, 2) + seq![':'] + padded_decimal(minutes, 2) + seq![':']
        + padded_decimal(seconds, 2) + seq!['.'] + padded_decimal(milliseconds, 3)
}

/// A number or its negative.
fn signed(negative: bool, n: u64) -> (r: i64)
    requires
        n <= i64::MAX,
    ensures
        r == with_sign(negative, n as int),
{
    if negative {
        -(n as i64)
    } else {
        n as i64
    }
}

impl Timestamp {
    /// The time as `hours:minutes:seconds.milliseconds`.
    pub fn to_string(&self) -> (r: String)
        ensures
            r@ == timestamp_text(self.0 as int),
    {
        let all: u64 = if self.0 < 0 {
            ((-(self.0 + 1)) as u64 + 1) / 1000
        } else {
            self.0 as u64 / 1000
        };
        let negative: bool = self.0 < 0;
        let mut out = String::new();
        push_padded(&mut out, signed(negative, all / 3_600_000), 2);
        out.push(':');
        push_padded(&mut out, signed(negative, all / 60_000 % 60), 2);
        out.push(':');
        push_padded(&mut out, signed(negative, all / 1000 % 60), 2);
        out.push('.');
        push_padded(&mut out, signed(negative, all % 1000), 3);
        assert(out@ =~= timestamp_text(self.0 as int));
        out
    }
}

/// The clock shows the time to the millisecond: its parts add up again, and none overflows into
/// the next.
pub proof fn clock_adds_up(microseconds: int)
    requires
        0 <= microseconds,
    ensures
        ({
            let (hours, minutes, seconds, milliseconds) = clock(microseconds);
            &&& ((hours * 60 + minutes) * 60 + seconds) * 1000 + milliseconds == microseconds
                / 1000
            &&& 0 <= hours
            &&& 0 <= minutes < 60
            &&& 0 <= seconds < 60
            &&& 0 <= milliseconds < 1000
        }),
{
}

/// A time that is not negative reads back from its text, to the millisecond: hours, two digits of
/// minutes, two of seconds and three of milliseconds, with colons and a point between them.
pub proof fn a_clock_reads_back(microseconds: int) -> (parts: (
    Seq<char>,
    Seq<char>,
    Seq<char>,
    Seq<char>,
))
    requires
        0 <= microseconds,
    ensures
        timestamp_text(microseconds) == parts.0 + seq![':'] + parts.1 + seq![':'] + parts.2 + seq![
            '.',
        ] + parts.3,
        parts.0.len() >= 2 && parts.1.len() == 2 && parts.2.len() == 2 && parts.3.len() == 3,
        all_digits(parts.0) && all_digits(parts.1) && all_digits(parts.2) && all_digits(parts.3),
        ((number(parts.0) * 60 + number(parts.1)) * 60 + number(parts.2)) * 1000 + number(parts.3)
            == microseconds / 1000,
        number(parts.1) < 60 && number(parts.2) < 60,
{
    let (hours, minutes, seconds, milliseconds) = clock(microseconds);
    clock_adds_up(microseconds);
    lemma_unsigned_part(hours, 2);
    lemma_unsigned_part(minutes, 2);
    lemma_unsigned_part(seconds, 2);
    lemma_unsigned_part(milliseconds, 3);
    reveal_with_fuel(digits, 4);
    (
        padded_decimal(hours, 2),
        padded_decimal(minutes, 2),
        padded_decimal(seconds, 2),
        padded_decimal(milliseconds, 3),
    )
}

proof fn lemma_unsigned_part(n: int, width: int)
    requires
        0 <= n,
    ensures
        number(padded_decimal(n, width)) == n,
        all_digits(padded_decimal(n, width)),
        padded_decimal(n, width).len() >= width,
{
    padding_changes_the_width_only(n, width);
    digits_are_digits(n);
    let text = padded_decimal(n, width);
    assert('0' <= text[0]);
}

/// A negative time shows the parts of the same time without its sign, each with a minus.
pub proof fn a_negative_clock_has_negative_parts(microseconds: int)
    requires
        0 < microseconds,
    ensures
        ({
            let (hours, minutes, seconds, milliseconds) = clock(microseconds);
            clock(-microseconds) == (-hours, -minutes, -seconds, -milliseconds)
        }),
        timestamp_text(-microseconds) == padded_decimal(clock(-microseconds).0, 2) + seq![':']
            + padded_decimal(clock(-microseconds).1, 2) + seq![':'] + padded_decimal(
            clock(-microseconds).2,
            2,
        ) + seq!['.'] + padded_decimal(clock(-microseconds).3, 3),
{
}

/// What [`Timestamp::to_string`] returns reads back to the millisecond, for a time that is not
/// negative.
pub proof fn shown_times_read_back(time: Timestamp, r: String) -> (parts: (
    Seq<char>,
    Seq<char>,
    Seq<char>,
    Seq<char>,
))
    requires
        0 <= time.0,
        call_ensures(Timestamp::to_string, (&time,), r),
    ensures
        r@ == parts.0 + seq![':'] + parts.1 + seq![':'] + parts.2 + seq!['.'] + parts.3,
        parts.1.len() == 2 && parts.2.len() == 2 && parts.3.len() == 3,
        ((number(parts.0) * 60 + number(parts.1)) * 60 + number(parts.2)) * 1000 + number(parts.3)
            == time.0 as int / 1000,
        number(parts.1) < 60 && number(parts.2) < 60,
{
    a_clock_reads_back(time.0 as int)
}

} // verus!

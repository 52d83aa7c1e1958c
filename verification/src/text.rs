//! Numbers as text.

use vstd::prelude::*;

verus! {

/// `String::push` appends one character.
pub assume_specification[ String::push ](s: &mut String, c: char)
    ensures
        final(s)@ == old(s)@.push(c),
;

/// `String::pop` takes the last character off and returns it, or returns `None` if there is
/// none.
pub assume_specification[ String::pop ](s: &mut String) -> (r: Option<char>)
    ensures
        old(s)@.len() == 0 ==> r is None && final(s)@ == old(s)@,
        old(s)@.len() > 0 ==> r == Some(old(s)@.last()) && final(s)@ == old(s)@.drop_last(),
;

/// The character for a number below ten.
pub open spec fn digit(n: int) -> char {
    (48 + n) as char
}

/// A number in decimal, without leading zeros.
pub open spec fn digits(n: int) -> Seq<char>
    decreases n,
{
    if n < 10 {
        seq![digit(n)]
    } else {
        digits(n / 10).push(digit(n % 10))
    }
}

/// A number in decimal, with a leading minus if it is negative.
pub open spec fn decimal(n: int) -> Seq<char> {
    if n < 0 {
        seq!['-'] + digits(-n)
    } else {
        digits(n)
    }
}

/// `s`, with zeros in front if it is shorter than `width`.
pub open spec fn zero_fill(s: Seq<char>, width: int) -> Seq<char> {
    if s.len() < width {
        Seq::new((width - s.len()) as nat, |i: int| '0') + s
    } else {
        s
    }
}

/// A number in decimal, filled with zeros between its sign and its digits to at least `width`
/// characters.
pub open spec fn padded_decimal(n: int, width: int) -> Seq<char> {
    if n < 0 {
        seq!['-'] + zero_fill(digits(-n), width - 1)
    } else {
        zero_fill(digits(n), width)
    }
}

/// The number that a row of digits stands for.
pub open spec fn number(s: Seq<char>) -> int
    decreases s.len(),
{
    if s.len() == 0 {
        0
    } else {
        number(s.drop_last()) * 10 + (s.last() as int - 48)
    }
}

/// The digits of a number stand for that number.
pub proof fn digits_stand_for_their_number(n: int)
    requires
        0 <= n,
    ensures
        number(digits(n)) == n,
    decreases n,
{
    if n < 10 {
        assert(digits(n).drop_last() =~= seq![]);
        assert(number(Seq::<char>::empty()) == 0);
    } else {
        digits_stand_for_their_number(n / 10);
        assert(digits(n).drop_last() =~= digits(n / 10));
    }
}

/// The text with `s` added at its end.
pub fn push_text(out: &mut String, s: &str)
    ensures
        final(out)@ == old(out)@ + s@,
{
    let ghost before = out@;
    for c in it: s.chars()
        invariant
            out@ == before + s@.take(it.index() as int),
            it.seq() == s@,
    {
        assert(s@.take(it.index() + 1) =~= s@.take(it.index() as int).push(c));
        out.push(c);
    }
    assert(s@.take(s@.len() as int) =~= s@);
}

/// Adds a number in decimal.
pub fn push_digits(out: &mut String, n: u64)
    ensures
        final(out)@ == old(out)@ + digits(n as int),
    decreases n,
{
    if n >= 10 {
        push_digits(out, n / 10);
    }
    out.push((48 + (n % 10) as u8) as char);
}

/// The distance of a number from zero.
fn distance(n: i64) -> (r: u64)
    ensures
        r == if n < 0 {
            -n
        } else {
            n as int
        },
{
    if n < 0 {
        (-(n + 1)) as u64 + 1
    } else {
        n as u64
    }
}

/// A number in decimal.
pub fn decimal_text(n: i64) -> (r: String)
    ensures
        r@ == decimal(n as int),
{
    let mut out = String::new();
    if n < 0 {
        out.push('-');
    }
    push_digits(&mut out, distance(n));
    out
}

/// A number that is not negative, in decimal.
pub fn unsigned_text(n: u64) -> (r: String)
    ensures
        r@ == decimal(n as int),
{
    let mut out = String::new();
    push_digits(&mut out, n);
    out
}

/// Adds a number in decimal, filled with zeros to at least `width` characters.
pub fn push_padded(out: &mut String, n: i64, width: usize)
    ensures
        final(out)@ == old(out)@ + padded_decimal(n as int, width as int),
{
    let ghost before = out@;
    let mut digits_text = String::new();
    push_digits(&mut digits_text, distance(n));
    let mut have: usize = digits_text.as_str().unicode_len();
    let mut room: usize = width;
    if n < 0 {
        out.push('-');
        if room > 0 {
            room = room - 1;
        }
    }
    let ghost signed = out@;
    let ghost start = have as int;
    while have < room
        invariant
            start <= have,
            have <= room || have == start,
            out@ == signed + Seq::new((have - start) as nat, |i: int| '0'),
        decreases room - have,
    {
        out.push('0');
        assert(Seq::new((have + 1 - start) as nat, |i: int| '0') =~= Seq::new(
            (have - start) as nat,
            |i: int| '0',
        ).push('0'));
        have = have + 1;
    }
    push_text(out, digits_text.as_str());
}

/// Whether a text is made of digits only.
pub open spec fn all_digits(s: Seq<char>) -> bool {
    forall|i: int| 0 <= i < s.len() ==> '0' <= #[trigger] s[i] <= '9'
}

/// The number that a row of digits stands for, with a minus in front if it is negative.
pub open spec fn signed_number(s: Seq<char>) -> int {
    if s.len() > 0 && s[0] == '-' {
        -number(s.skip(1))
    } else {
        number(s)
    }
}

/// The digits of a number are digits, there is at least one, and a number of more than one digit
/// does not start with a zero.
pub proof fn digits_are_digits(n: int)
    requires
        0 <= n,
    ensures
        digits(n).len() > 0,
        all_digits(digits(n)),
        digits(n).len() > 1 ==> digits(n)[0] != '0',
    decreases n,
{
    if n >= 10 {
        digits_are_digits(n / 10);
        assert forall|i: int| 0 <= i < digits(n).len() implies '0' <= #[trigger] digits(n)[i]
            <= '9' by {
            if i < digits(n / 10).len() {
                assert(digits(n / 10)[i] == digits(n)[i]);
            }
        }
        assert(digits(n)[0] == digits(n / 10)[0]);
        if digits(n / 10).len() == 1 {
            assert(n / 10 < 10) by {
                if n / 10 >= 10 {
                    digits_are_digits(n / 10 / 10);
                }
            }
        }
    }
}

/// A number in decimal reads back as that number, negative or not.
pub proof fn decimal_reads_back(n: int)
    ensures
        signed_number(decimal(n)) == n,
        decimal(n).len() > 0,
{
    let size = if n < 0 {
        -n
    } else {
        n
    };
    digits_are_digits(size);
    digits_stand_for_their_number(size);
    if n < 0 {
        assert(decimal(n).skip(1) =~= digits(-n));
    } else {
        assert('0' <= digits(n)[0]);
    }
}

proof fn lemma_zeros_in_front(zeros: Seq<char>, s: Seq<char>)
    requires
        forall|i: int| 0 <= i < zeros.len() ==> #[trigger] zeros[i] == '0',
    ensures
        number(zeros + s) == number(s),
    decreases zeros.len() + s.len(),
{
    if s.len() > 0 {
        lemma_zeros_in_front(zeros, s.drop_last());
        assert((zeros + s).drop_last() =~= zeros + s.drop_last());
    } else if zeros.len() > 0 {
        let fewer = zeros.drop_last();
        assert forall|i: int| 0 <= i < fewer.len() implies #[trigger] fewer[i] == '0' by {
            assert(zeros[i] == '0');
        }
        lemma_zeros_in_front(fewer, s);
        assert((zeros + s).drop_last() =~= fewer + s);
        assert((zeros + s).last() == zeros[zeros.len() - 1]);
    } else {
        assert(zeros + s =~= s);
    }
}

/// A number that is filled with zeros still reads back, has at least the width that was asked for,
/// and is no longer than that or than it has to be.
pub proof fn padding_changes_the_width_only(n: int, width: int)
    ensures
        signed_number(padded_decimal(n, width)) == n,
        padded_decimal(n, width).len() >= width,
        padded_decimal(n, width).len() == width || padded_decimal(n, width) == decimal(n),
        n >= 0 ==> all_digits(padded_decimal(n, width)),
{
    let size = if n < 0 {
        -n
    } else {
        n
    };
    let room = if n < 0 {
        width - 1
    } else {
        width
    };
    let d = digits(size);
    digits_are_digits(size);
    digits_stand_for_their_number(size);
    decimal_reads_back(n);
    let filled = zero_fill(d, room);
    if d.len() < room {
        let zeros = Seq::new((room - d.len()) as nat, |i: int| '0');
        lemma_zeros_in_front(zeros, d);
    }
    assert(number(filled) == size);
    assert(filled.len() > 0 && '0' <= filled[0] <= '9');
    if n < 0 {
        assert(padded_decimal(n, width).skip(1) =~= filled);
    }
}

/// What [`decimal_text`] and [`unsigned_text`] return reads back as the number that was given.
pub proof fn texts_read_back(n: i64, m: u64, r: String, s: String)
    requires
        call_ensures(decimal_text, (n,), r),
        call_ensures(unsigned_text, (m,), s),
    ensures
        signed_number(r@) == n,
        signed_number(s@) == m,
{
    decimal_reads_back(n as int);
    decimal_reads_back(m as int);
}

} // verus!

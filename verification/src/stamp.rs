//! The date stamp that heads every done record: `[YYYY-MM-DD] - `.

use vstd::prelude::*;
use chrono::Datelike;

verus! {

/// Number of characters in the stamp of a date whose year has four digits.
pub const STAMP_WIDTH: usize = 15;

/// The character of a decimal digit.
pub open spec fn digit(d: int) -> char
    recommends
        0 <= d <= 9,
{
    if d == 0 {
        '0'
    } else if d == 1 {
        '1'
    } else if d == 2 {
        '2'
    } else if d == 3 {
        '3'
    } else if d == 4 {
        '4'
    } else if d == 5 {
        '5'
    } else if d == 6 {
        '6'
    } else if d == 7 {
        '7'
    } else if d == 8 {
        '8'
    } else {
        '9'
    }
}

/// The decimal digits of a natural number, most significant first, without
/// leading zeros.
pub open spec fn digits(n: nat) -> Seq<char>
    decreases n,
{
    if n < 10 {
        seq![digit(n as int)]
    } else {
        digits(n / 10).push(digit((n % 10) as int))
    }
}

/// An integer in decimal, with a leading `-` when it is negative.
pub open spec fn decimal(n: int) -> Seq<char> {
    if n < 0 {
        seq!['-'] + digits((-n) as nat)
    } else {
        digits(n as nat)
    }
}

/// `s` filled up on the left with `'0'` to at least `width` characters.
pub open spec fn zero_padded(s: Seq<char>, width: nat) -> Seq<char> {
    if s.len() >= width {
        s
    } else {
        Seq::new((width - s.len()) as nat, |i: int| '0') + s
    }
}

/// The stamp of a date: the year padded to four places, month and day padded
/// to two, as `[YYYY-MM-DD] - `.
pub open spec fn stamp(year: int, month: int, day: int) -> Seq<char> {
    seq!['['] + zero_padded(decimal(year), 4) + seq!['-'] + zero_padded(decimal(month), 2)
        + seq!['-'] + zero_padded(decimal(day), 2) + seq![']', ' ', '-', ' ']
}

/// What is left of a done record once its stamp is taken off: everything
/// after the first `STAMP_WIDTH` characters.
pub open spec fn unstamped(line: Seq<char>) -> Seq<char> {
    if line.len() >= STAMP_WIDTH {
        line.subrange(STAMP_WIDTH as int, line.len() as int)
    } else {
        Seq::empty()
    }
}

fn digit_str(d: u32) -> (s: &'static str)
    requires
        d <= 9,
    ensures
        s@ == seq![digit(d as int)],
{
    proof {
        reveal_strlit("0");
        reveal_strlit("1");
        reveal_strlit("2");
        reveal_strlit("3");
        reveal_strlit("4");
        reveal_strlit("5");
        reveal_strlit("6");
        reveal_strlit("7");
        reveal_strlit("8");
        reveal_strlit("9");
    }
    let s = if d == 0 {
        "0"
    } else if d == 1 {
        "1"
    } else if d == 2 {
        "2"
    } else if d == 3 {
        "3"
    } else if d == 4 {
        "4"
    } else if d == 5 {
        "5"
    } else if d == 6 {
        "6"
    } else if d == 7 {
        "7"
    } else if d == 8 {
        "8"
    } else {
        "9"
    };
    assert(s@ =~= seq![digit(d as int)]);
    s
}

fn digits_of(n: u32) -> (s: String)
    ensures
        s@ == digits(n as nat),
    decreases n,
{
    if n < 10 {
        String::from_str(digit_str(n))
    } else {
        let mut s = digits_of(n / 10);
        s.append(digit_str(n % 10));
        assert(s@ =~= digits(n as nat));
        s
    }
}

fn decimal_of(n: i32) -> (s: String)
    ensures
        s@ == decimal(n as int),
{
    if n < 0 {
        let magnitude: u32 = (-(n as i64)) as u32;
        let mut s = String::from_str("-");
        let d = digits_of(magnitude);
        s.append(d.as_str());
        proof {
            reveal_strlit("-");
            assert(s@ =~= decimal(n as int));
        }
        s
    } else {
        digits_of(n as u32)
    }
}

fn zero_pad(s: String, width: usize) -> (padded: String)
    ensures
        padded@ == zero_padded(s@, width as nat),
{
    let len: usize = s.as_str().unicode_len();
    if len >= width {
        return s;
    }
    let fill: usize = width - len;
    let mut padded = String::new();
    let mut k: usize = 0;
    while k < fill
        invariant
            k <= fill,
            padded@ =~= Seq::new(k as nat, |i: int| '0'),
        decreases fill - k,
    {
        padded.append("0");
        proof {
            reveal_strlit("0");
        }
        k = k + 1;
    }
    padded.append(s.as_str());
    assert(padded@ =~= zero_padded(s@, width as nat));
    padded
}

/// Writes the stamp of a date.
pub fn date_stamp(year: i32, month: u32, day: u32) -> (s: String)
    ensures
        s@ == stamp(year as int, month as int, day as int),
{
    let mut s = String::from_str("[");
    let y = zero_pad(decimal_of(year), 4);
    s.append(y.as_str());
    s.append("-");
    let m = zero_pad(digits_of(month), 2);
    s.append(m.as_str());
    s.append("-");
    let d = zero_pad(digits_of(day), 2);
    s.append(d.as_str());
    s.append("] - ");
    proof {
        reveal_strlit("[");
        reveal_strlit("-");
        reveal_strlit("] - ");
        assert(s@ =~= stamp(year as int, month as int, day as int));
    }
    s
}

/// The local calendar date of this moment as year, month and day, read from
/// `chrono::Local::now()` through `chrono::Datelike`. The contract repeats
/// only the ranges that `Datelike::month` and `Datelike::day` document; which
/// date comes back depends on the clock and the time zone of the machine.
/// `Local::now()` stops the program if the clock stands before 1970.
#[verifier::external_body]
pub(crate) fn today() -> (date: (i32, u32, u32))
    ensures
        1 <= date.1 <= 12,
        1 <= date.2 <= 31,
{
    let now = chrono::Local::now();
    (now.year(), now.month(), now.day())
}

/// A year of four digits gives a stamp of exactly `STAMP_WIDTH` characters,
/// so taking the stamp off a done record gives back what it was put on.
pub proof fn stamp_comes_off(year: int, month: int, day: int, body: Seq<char>)
    requires
        0 <= year <= 9999,
        0 <= month <= 99,
        0 <= day <= 99,
    ensures
        stamp(year, month, day).len() == STAMP_WIDTH,
        unstamped(stamp(year, month, day) + body) == body,
{
    padded_width(year, 4);
    padded_width(month, 2);
    padded_width(day, 2);
    assert(unstamped(stamp(year, month, day) + body) =~= body);
}

proof fn padded_width(n: int, width: nat)
    requires
        0 <= n,
        width == 2 && n <= 99 || width == 4 && n <= 9999,
    ensures
        zero_padded(decimal(n), width).len() == width,
{
    reveal_with_fuel(digits, 5);
}

} // verus!

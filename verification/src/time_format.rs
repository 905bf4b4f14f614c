//! Rendering a playback position as `minutes:seconds`.

use vstd::prelude::*;
use vstd::string::*;
use crate::text::push_all;

verus! {

/// The character that stands for the decimal digit `d`.
pub open spec fn digit_char(d: int) -> char {
    (48 + d) as char
}

/// The decimal digits of a natural number, most significant first.
pub open spec fn decimal_nat(n: nat) -> Seq<char>
    decreases n,
{
    if n < 10 {
        seq![digit_char(n as int)]
    } else {
        decimal_nat(n / 10).push(digit_char((n % 10) as int))
    }
}

/// The decimal rendering of an integer, with a leading `-` when negative.
pub open spec fn decimal(n: int) -> Seq<char> {
    if n < 0 {
        seq!['-'] + decimal_nat((-n) as nat)
    } else {
        decimal_nat(n as nat)
    }
}

/// Whole minutes counted off a position: one minute is taken for each time
/// 60 can be subtracted while strictly more than 60 seconds remain.
pub open spec fn minutes_of(secs: int) -> int {
    if secs > 60 {
        (secs - 1) / 60
    } else {
        0
    }
}

/// The seconds that remain once `minutes_of` minutes were counted off.
/// For a position above 60 this lies in `1..=60`; other positions are kept.
pub open spec fn seconds_left(secs: int) -> int {
    secs - 60 * minutes_of(secs)
}

/// Left-pads a rendering shorter than two characters with a single `0`.
pub open spec fn pad_two(s: Seq<char>) -> Seq<char> {
    if s.len() < 2 {
        seq!['0'] + s
    } else {
        s
    }
}

/// The text of a position: minutes, a colon, then the padded seconds.
pub open spec fn time_text(secs: int) -> Seq<char> {
    decimal(minutes_of(secs)) + seq![':'] + pad_two(decimal(seconds_left(secs)))
}

fn digit_of(d: u64) -> (c: char)
    requires
        d < 10,
    ensures
        c == digit_char(d as int),
{
    let b: u8 = 48u8 + d as u8;
    b as char
}

/// Renders `n` in decimal.
pub fn decimal_string(n: i64) -> (out: String)
    ensures
        out@ == decimal(n as int),
{
    let negative = n < 0;
    let magnitude: u64 = if negative {
        (-(n as i128)) as u64
    } else {
        n as u64
    };
    // Digits are produced least significant first.
    let mut digits: Vec<char> = Vec::new();
    let mut rest: u64 = magnitude;
    let ghost mut tail: Seq<char> = Seq::empty();
    while rest >= 10
        invariant
            decimal_nat(magnitude as nat) == decimal_nat(rest as nat) + tail,
            tail.len() == digits.len(),
            forall|i: int| 0 <= i < tail.len() ==> tail[i] == digits@[digits.len() - 1 - i],
        decreases rest,
    {
        let d = digit_of(rest % 10);
        proof {
            assert(decimal_nat(rest as nat) == decimal_nat((rest / 10) as nat).push(d));
            assert(decimal_nat((rest / 10) as nat).push(d) + tail == decimal_nat(
                (rest / 10) as nat,
            ) + (seq![d] + tail));
            tail = seq![d] + tail;
        }
        digits.push(d);
        rest = rest / 10;
    }
    let d = digit_of(rest);
    proof {
        assert(decimal_nat(rest as nat) + tail == seq![d] + tail);
        tail = seq![d] + tail;
    }
    digits.push(d);

    let mut forward: Vec<char> = Vec::new();
    let mut k: usize = digits.len();
    while k > 0
        invariant
            k <= digits.len(),
            tail.len() == digits.len(),
            forall|i: int| 0 <= i < tail.len() ==> tail[i] == digits@[digits.len() - 1 - i],
            forward@ == tail.take(digits.len() - k),
        decreases k,
    {
        k -= 1;
        forward.push(digits[k]);
        assert(forward@ == tail.take(digits.len() - k));
    }
    assert(forward@ == tail);
    let mut out = String::new();
    if negative {
        out.push('-');
    }
    push_all(&mut out, &forward);
    proof {
        if negative {
            assert(out@ == seq!['-'] + tail);
        } else {
            assert(out@ == tail);
        }
    }
    out
}

/// Formats a position in seconds as `minutes:seconds`.
///
/// Sixty is subtracted only while strictly more than sixty seconds remain, so
/// a position of exactly 60 reads `0:60`. A negative position is rendered as
/// it is, with zero minutes.
pub fn format_time(secs: i64) -> (out: String)
    ensures
        out@ == time_text(secs as int),
{
    let mut left: i64 = secs;
    let mut mins: i64 = 0;
    while left > 60
        invariant
            left + 60 * mins == secs,
            mins >= 0,
            secs > 60 ==> left >= 1,
            secs <= 60 ==> mins == 0,
        decreases left,
    {
        left -= 60;
        mins += 1;
    }
    assert(mins == minutes_of(secs as int));
    assert(left == seconds_left(secs as int));
    let seconds = decimal_string(left);
    let mut out = decimal_string(mins);
    out.push(':');
    if seconds.as_str().unicode_len() < 2 {
        out.push('0');
    }
    out.append(seconds.as_str());
    out
}

} // verus!

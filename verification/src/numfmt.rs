//! Rendering numbers as text: decimal strings for the update counter
//! of the accumulated view, and `HH:MM:SS` wall-clock times derived
//! from whole seconds since the Unix epoch.

use vstd::prelude::*;

verus! {

/// The decimal digit character for `d` (callers keep `d` below ten).
pub open spec fn spec_digit(d: int) -> Seq<char> {
    if d == 0 {
        "0"@
    } else if d == 1 {
        "1"@
    } else if d == 2 {
        "2"@
    } else if d == 3 {
        "3"@
    } else if d == 4 {
        "4"@
    } else if d == 5 {
        "5"@
    } else if d == 6 {
        "6"@
    } else if d == 7 {
        "7"@
    } else if d == 8 {
        "8"@
    } else {
        "9"@
    }
}

fn digit_str(d: u64) -> (r: &'static str)
    requires
        d < 10,
    ensures
        r@ == spec_digit(d as int),
{
    match d {
        0 => "0",
        1 => "1",
        2 => "2",
        3 => "3",
        4 => "4",
        5 => "5",
        6 => "6",
        7 => "7",
        8 => "8",
        _ => "9",
    }
}

/// The usual decimal rendering of a non-negative number, most
/// significant digit first and without leading zeroes.
pub open spec fn spec_decimal(n: int) -> Seq<char>
    decreases n,
{
    if n < 10 {
        spec_digit(n)
    } else {
        spec_decimal(n / 10) + spec_digit(n % 10)
    }
}

/// Renders `n` in decimal, per `spec_decimal`.
pub fn decimal_string(n: u64) -> (r: String)
    ensures
        r@ == spec_decimal(n as int),
    decreases n,
{
    if n < 10 {
        String::from_str(digit_str(n))
    } else {
        let mut s = decimal_string(n / 10);
        s.append(digit_str(n % 10));
        s
    }
}

/// Two decimal digits, zero-padded (callers keep `n` below a hundred).
pub open spec fn spec_two_digits(n: int) -> Seq<char> {
    spec_digit(n / 10) + spec_digit(n % 10)
}

fn push_two_digits(out: &mut String, n: u64)
    requires
        n < 100,
    ensures
        final(out)@ == old(out)@ + spec_two_digits(n as int),
{
    out.append(digit_str(n / 10));
    out.append(digit_str(n % 10));
}

/// The time of day `HH:MM:SS` read off a count of whole seconds since
/// the Unix epoch (which knows no leap seconds).
pub open spec fn spec_hms(t: int) -> Seq<char> {
    spec_two_digits((t / 3600) % 24) + ":"@ + spec_two_digits((t / 60) % 60) + ":"@
        + spec_two_digits(t % 60)
}

/// Renders the time of day of the epoch-seconds value `t`, per `spec_hms`.
pub fn format_hms(t: u64) -> (r: String)
    ensures
        r@ == spec_hms(t as int),
{
    let h = (t / 3600) % 24;
    let m = (t / 60) % 60;
    let s = t % 60;
    let mut out = String::new();
    push_two_digits(&mut out, h);
    out.append(":");
    push_two_digits(&mut out, m);
    out.append(":");
    push_two_digits(&mut out, s);
    proof {
        assert(out@ =~= spec_hms(t as int));
    }
    out
}

} // verus!

//! Durations written as clock text: `M:SS`, or `H:MM:SS` from one hour on.
use vstd::prelude::*;

verus! {

pub open spec fn digit(d: int) -> char {
    seq!['0', '1', '2', '3', '4', '5', '6', '7', '8', '9'][d]
}

/// The decimal digits of `n`, without leading zeros.
pub open spec fn decimal(n: nat) -> Seq<char>
    decreases n,
{
    if n < 10 {
        seq![digit(n as int)]
    } else {
        decimal(n / 10).push(digit((n % 10) as int))
    }
}

/// `n` (below 100) as exactly two digits.
pub open spec fn two_digits(n: nat) -> Seq<char> {
    seq![digit((n / 10) as int), digit((n % 10) as int)]
}

/// The clock text of `total` seconds.
pub open spec fn time_text(total: nat) -> Seq<char> {
    let h = total / 3600;
    let m = (total % 3600) / 60;
    let s = total % 60;
    if h > 0 {
        decimal(h) + seq![':'] + two_digits(m) + seq![':'] + two_digits(s)
    } else {
        decimal(m) + seq![':'] + two_digits(s)
    }
}

fn digit_text(d: u64) -> (r: &'static str)
    requires
        d < 10,
    ensures
        r@ == seq![digit(d as int)],
{
    proof {
        reveal_strlit("0");
        reveal_strlit("1");
        reveal_strlit("2");
        reveal_strlit("3");
        reveal_strlit("4");
        reveal_strlit("5");
        reveal_strlit("6");
        reveal_strlit("7");
        reveal_strlit("8");
        reveal_strlit("9");
    }
    let r = if d == 0 {
        "0"
    } else if d == 1 {
        "1"
    } else if d == 2 {
        "2"
    } else if d == 3 {
        "3"
    } else if d == 4 {
        "4"
    } else if d == 5 {
        "5"
    } else if d == 6 {
        "6"
    } else if d == 7 {
        "7"
    } else if d == 8 {
        "8"
    } else {
        "9"
    };
    assert(r@ =~= seq![digit(d as int)]);
    r
}

fn append_decimal(s: &mut String, n: u64)
    ensures
        final(s)@ == old(s)@ + decimal(n as nat),
    decreases n,
{
    if n >= 10 {
        append_decimal(s, n / 10);
    }
    s.append(digit_text(n % 10));
    assert(final(s)@ =~= old(s)@ + decimal(n as nat));
}

fn append_two_digits(s: &mut String, n: u64)
    requires
        n < 100,
    ensures
        final(s)@ == old(s)@ + two_digits(n as nat),
{
    s.append(digit_text(n / 10));
    s.append(digit_text(n % 10));
    assert(final(s)@ =~= old(s)@ + two_digits(n as nat));
}

fn append_colon(s: &mut String)
    ensures
        final(s)@ == old(s)@ + seq![':'],
{
    proof {
        reveal_strlit(":");
    }
    s.append(":");
}

/// `total_seconds` as `M:SS`, or `H:MM:SS` when it reaches an hour.
pub fn format_time(total_seconds: u64) -> (r: String)
    ensures
        r@ == time_text(total_seconds as nat),
{
    let hours = total_seconds / 3600;
    let minutes = (total_seconds % 3600) / 60;
    let seconds = total_seconds % 60;
    let mut s = String::new();
    if hours > 0 {
        append_decimal(&mut s, hours);
        append_colon(&mut s);
        append_two_digits(&mut s, minutes);
        append_colon(&mut s);
        append_two_digits(&mut s, seconds);
    } else {
        append_decimal(&mut s, minutes);
        append_colon(&mut s);
        append_two_digits(&mut s, seconds);
    }
    assert(s@ =~= time_text(total_seconds as nat));
    s
}

} // verus!

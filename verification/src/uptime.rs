//! How long the service has been running, for people to read.

use vstd::prelude::*;
use vstd::string::*;

verus! {

pub const SECS_PER_WEEK: u64 = 604800;

pub const SECS_PER_DAY: u64 = 86400;

pub const SECS_PER_HOUR: u64 = 3600;

pub const SECS_PER_MINUTE: u64 = 60;

/// The character of a decimal digit.
pub open spec fn digit_char(d: nat) -> char {
    if d == 0 {
        '0'
    } else if d == 1 {
        '1'
    } else if d == 2 {
        '2'
    } else if d == 3 {
        '3'
    } else if d == 4 {
        '4'
    } else if d == 5 {
        '5'
    } else if d == 6 {
        '6'
    } else if d == 7 {
        '7'
    } else if d == 8 {
        '8'
    } else {
        '9'
    }
}

/// A number in decimal, without leading zeros.
pub open spec fn decimal(n: nat) -> Seq<char>
    decreases n,
{
    if n < 10 {
        seq![digit_char(n)]
    } else {
        decimal(n / 10).push(digit_char(n % 10))
    }
}

/// A duration as weeks, days, hours, minutes and seconds, each the remainder
/// of the larger unit.
pub open spec fn uptime_text(total_secs: u64) -> Seq<char> {
    decimal((total_secs / SECS_PER_WEEK) as nat) + "w "@ + decimal(
        ((total_secs % SECS_PER_WEEK) / SECS_PER_DAY) as nat,
    ) + "d "@ + decimal(((total_secs % SECS_PER_DAY) / SECS_PER_HOUR) as nat) + "h "@ + decimal(
        ((total_secs % SECS_PER_HOUR) / SECS_PER_MINUTE) as nat,
    ) + "m "@ + decimal((total_secs % SECS_PER_MINUTE) as nat) + "s"@
}

fn digit_text(d: u64) -> (text: &'static str)
    requires
        d < 10,
    ensures
        text@ == seq![digit_char(d as nat)],
{
    proof {
        reveal_strlit("0");
        reveal_strlit("1");
        reveal_strlit("2");
        reveal_strlit("3");
        reveal_strlit("4");
        reveal_strlit("5");
        reveal_strlit("6");
        reveal_strlit("7");
        reveal_strlit("8");
        reveal_strlit("9");
    }
    let text = if d == 0 {
        "0"
    } else if d == 1 {
        "1"
    } else if d == 2 {
        "2"
    } else if d == 3 {
        "3"
    } else if d == 4 {
        "4"
    } else if d == 5 {
        "5"
    } else if d == 6 {
        "6"
    } else if d == 7 {
        "7"
    } else if d == 8 {
        "8"
    } else {
        "9"
    };
    assert(text@ =~= seq![digit_char(d as nat)]);
    text
}

/// Appends a number in decimal.
pub fn push_decimal(line: &mut String, n: u64)
    ensures
        final(line)@ == old(line)@ + decimal(n as nat),
    decreases n,
{
    if n >= 10 {
        push_decimal(line, n / 10);
    }
    line.append(digit_text(n % 10));
    assert(line@ =~= old(line)@ + decimal(n as nat));
}

/// A duration in seconds as weeks, days, hours, minutes and seconds.
pub fn format_uptime(total_secs: u64) -> (text: String)
    ensures
        text@ == uptime_text(total_secs),
{
    let weeks = total_secs / SECS_PER_WEEK;
    let days = (total_secs % SECS_PER_WEEK) / SECS_PER_DAY;
    let hours = (total_secs % SECS_PER_DAY) / SECS_PER_HOUR;
    let minutes = (total_secs % SECS_PER_HOUR) / SECS_PER_MINUTE;
    let seconds = total_secs % SECS_PER_MINUTE;
    let mut text = String::new();
    push_decimal(&mut text, weeks);
    text.append("w ");
    push_decimal(&mut text, days);
    text.append("d ");
    push_decimal(&mut text, hours);
    text.append("h ");
    push_decimal(&mut text, minutes);
    text.append("m ");
    push_decimal(&mut text, seconds);
    text.append("s");
    assert(text@ =~= uptime_text(total_secs));
    text
}

} // verus!

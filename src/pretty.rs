//! Human-readable rendering of durations, such as `1m 5s 3.250ms`.
use vstd::prelude::*;
use vstd::string::StringExecFns;
use std::time::Duration;

verus! {

/// The decimal digit `d` as a character.
pub open spec fn digit_char(d: nat) -> char {
    if d == 0 { '0' }
    else if d == 1 { '1' }
    else if d == 2 { '2' }
    else if d == 3 { '3' }
    else if d == 4 { '4' }
    else if d == 5 { '5' }
    else if d == 6 { '6' }
    else if d == 7 { '7' }
    else if d == 8 { '8' }
    else { '9' }
}

/// `n` written in decimal, without leading zeros.
pub open spec fn decimal_text(n: nat) -> Seq<char>
    decreases n,
{
    if n < 10 {
        seq![digit_char(n)]
    } else {
        decimal_text(n / 10).push(digit_char(n % 10))
    }
}

/// The rendering of `secs` seconds and `nanos` nanoseconds: minutes and
/// seconds are shown only when nonzero, then milliseconds, a dot, and the
/// leftover microseconds.
pub open spec fn pretty_text(secs: nat, nanos: nat) -> Seq<char> {
    let mins = secs / 60;
    let s = secs % 60;
    let millis = nanos / 1_000_000;
    let micros = (nanos / 1_000) % 1_000;
    let tail = decimal_text(millis) + seq!['.'] + decimal_text(micros) + seq!['m', 's'];
    if mins > 0 {
        decimal_text(mins) + seq!['m', ' '] + decimal_text(s) + seq!['s', ' '] + tail
    } else if s > 0 {
        decimal_text(s) + seq!['s', ' '] + tail
    } else {
        tail
    }
}

fn digit_str(d: u64) -> (r: &'static str)
    requires
        d < 10,
    ensures
        r@ == seq![digit_char(d as nat)],
{
    proof {
        reveal_strlit("0");
        reveal_strlit("1");
        reveal_strlit("2");
        reveal_strlit("3");
        reveal_strlit("4");
        reveal_strlit("5");
        reveal_strlit("6");
        reveal_strlit("7");
        reveal_strlit("8");
        reveal_strlit("9");
    }
    if d == 0 {
        "0"
    } else if d == 1 {
        "1"
    } else if d == 2 {
        "2"
    } else if d == 3 {
        "3"
    } else if d == 4 {
        "4"
    } else if d == 5 {
        "5"
    } else if d == 6 {
        "6"
    } else if d == 7 {
        "7"
    } else if d == 8 {
        "8"
    } else {
        "9"
    }
}

/// Appends `n` in decimal to `out`.
fn push_decimal(out: &mut String, n: u64)
    ensures
        final(out)@ == old(out)@ + decimal_text(n as nat),
    decreases n,
{
    if n >= 10 {
        push_decimal(out, n / 10);
    }
    out.append(digit_str(n % 10));
    assert(n >= 10 ==> decimal_text(n as nat) == decimal_text((n / 10) as nat).push(
        digit_char((n % 10) as nat),
    ));
}

/// Appends the literal `s` to `out`.
fn push_str(out: &mut String, s: &str)
    ensures
        final(out)@ == old(out)@ + s@,
{
    out.append(s);
}

/// Renders `secs` whole seconds plus `nanos` nanoseconds.
pub fn format_duration(secs: u64, nanos: u32) -> (r: String)
    ensures
        r@ == pretty_text(secs as nat, nanos as nat),
{
    let mins = secs / 60;
    let s = secs % 60;
    let millis = (nanos as u64) / 1_000_000;
    let micros = ((nanos / 1_000) % 1_000) as u64;
    let mut out = String::new();
    proof {
        reveal_strlit("m ");
        reveal_strlit("s ");
        reveal_strlit(".");
        reveal_strlit("ms");
    }
    if mins > 0 {
        push_decimal(&mut out, mins);
        push_str(&mut out, "m ");
        push_decimal(&mut out, s);
        push_str(&mut out, "s ");
    } else if s > 0 {
        push_decimal(&mut out, s);
        push_str(&mut out, "s ");
    }
    push_decimal(&mut out, millis);
    push_str(&mut out, ".");
    push_decimal(&mut out, micros);
    push_str(&mut out, "ms");
    assert(out@ =~= pretty_text(secs as nat, nanos as nat));
    out
}

/// Relies on `Duration::as_secs`: the whole seconds of the duration.
pub assume_specification[ Duration::as_secs ](d: &Duration) -> u64;

/// Relies on `Duration::subsec_nanos`: the fractional part in nanoseconds,
/// documented to be less than one billion.
pub assume_specification[ Duration::subsec_nanos ](d: &Duration) -> (r: u32)
    ensures
        r < 1_000_000_000,
;

/// A duration that renders as minutes, seconds and milliseconds.
pub struct PrettyDuration(pub Duration);

impl PrettyDuration {
    /// The rendering of the duration (see [`format_duration`]).
    pub fn text(&self) -> (r: String)
        ensures
            exists|secs: u64, nanos: u32|
                nanos < 1_000_000_000 && r@ == pretty_text(secs as nat, nanos as nat),
    {
        let secs = self.0.as_secs();
        let nanos = self.0.subsec_nanos();
        format_duration(secs, nanos)
    }
}

} // verus!

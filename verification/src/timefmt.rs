//! The playback timing display: elapsed and total times are shown as
//! zero-padded `minutes:seconds`, or `--:--` when unknown.

use vstd::prelude::*;
use vstd::string::StringExecFns;

verus! {

/// The text of one decimal digit.
pub open spec fn digit_seq(d: nat) -> Seq<char> {
    if d == 0 {
        "0"@
    } else if d == 1 {
        "1"@
    } else if d == 2 {
        "2"@
    } else if d == 3 {
        "3"@
    } else if d == 4 {
        "4"@
    } else if d == 5 {
        "5"@
    } else if d == 6 {
        "6"@
    } else if d == 7 {
        "7"@
    } else if d == 8 {
        "8"@
    } else {
        "9"@
    }
}

/// The decimal text of a number, without leading zeros.
pub open spec fn decimal_seq(n: nat) -> Seq<char>
    decreases n,
{
    if n < 10 {
        digit_seq(n)
    } else {
        decimal_seq(n / 10) + digit_seq(n % 10)
    }
}

/// The decimal text of a number, zero-padded to at least two digits.
pub open spec fn two_digit_seq(n: nat) -> Seq<char> {
    if n < 10 {
        "0"@ + decimal_seq(n)
    } else {
        decimal_seq(n)
    }
}

/// A time in milliseconds shown as `minutes:seconds`, each zero-padded to
/// two digits, or `--:--` when there is nothing to show.
pub open spec fn timestamp_text(t: Option<u64>) -> Seq<char> {
    match t {
        None => "--:--"@,
        Some(ms) => {
            let secs = ms / 1000;
            two_digit_seq((secs / 60) as nat) + ":"@ + two_digit_seq((secs % 60) as nat)
        },
    }
}

/// Append one decimal digit.
fn append_digit(out: &mut String, d: u64)
    requires
        d < 10,
    ensures
        final(out)@ == old(out)@ + digit_seq(d as nat),
{
    if d == 0 {
        out.append("0");
    } else if d == 1 {
        out.append("1");
    } else if d == 2 {
        out.append("2");
    } else if d == 3 {
        out.append("3");
    } else if d == 4 {
        out.append("4");
    } else if d == 5 {
        out.append("5");
    } else if d == 6 {
        out.append("6");
    } else if d == 7 {
        out.append("7");
    } else if d == 8 {
        out.append("8");
    } else {
        out.append("9");
    }
}

/// Append the decimal text of a number.
fn append_decimal(out: &mut String, n: u64)
    ensures
        final(out)@ == old(out)@ + decimal_seq(n as nat),
    decreases n,
{
    if n < 10 {
        append_digit(out, n);
    } else {
        append_decimal(out, n / 10);
        append_digit(out, n % 10);
        proof {
            assert(final(out)@ =~= old(out)@ + decimal_seq(n as nat));
        }
    }
}

/// Format a time in milliseconds for display.
pub fn format_timestamp(t: Option<u64>) -> (s: String)
    ensures
        s@ == timestamp_text(t),
{
    match t {
        None => String::from_str("--:--"),
        Some(ms) => {
            let secs = ms / 1000;
            let mins = secs / 60;
            let rem = secs % 60;
            let mut out = String::new();
            if mins < 10 {
                out.append("0");
            }
            append_decimal(&mut out, mins);
            out.append(":");
            if rem < 10 {
                out.append("0");
            }
            append_decimal(&mut out, rem);
            proof {
                assert(out@ =~= timestamp_text(t));
            }
            out
        },
    }
}

} // verus!

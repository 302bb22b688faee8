use vstd::prelude::*;
use vstd::string::StringExecFns;

use crate::severity::{label_of, Severity};

verus! {

/// The character of a decimal digit.
pub open spec fn digit_char(d: nat) -> char
    recommends
        d < 10,
{
    if d == 0 {
        '0'
    } else if d == 1 {
        '1'
    } else if d == 2 {
        '2'
    } else if d == 3 {
        '3'
    } else if d == 4 {
        '4'
    } else if d == 5 {
        '5'
    } else if d == 6 {
        '6'
    } else if d == 7 {
        '7'
    } else if d == 8 {
        '8'
    } else {
        '9'
    }
}

/// The decimal numeral of `n`, most significant digit first, without
/// leading zeros (zero is written `0`).
pub open spec fn decimal_of(n: nat) -> Seq<char>
    decreases n,
{
    if n < 10 {
        seq![digit_char(n)]
    } else {
        decimal_of(n / 10).push(digit_char(n % 10))
    }
}

/// The line written for a call at `file`:`line` with message `msg`:
/// `SEVERITY:[FILE:LINE]: MESSAGE`.
pub open spec fn log_line(sev: Severity, file: Seq<char>, line: nat, msg: Seq<char>) -> Seq<char> {
    label_of(sev) + seq![':', '['] + file + seq![':'] + decimal_of(line) + seq![']', ':', ' ']
        + msg
}

/// The one-character string of the decimal digit `d`.
fn digit_str(d: u32) -> (r: &'static str)
    requires
        d < 10,
    ensures
        r@ == seq![digit_char(d as nat)],
{
    proof {
        reveal_strlit("0");
        reveal_strlit("1");
        reveal_strlit("2");
        reveal_strlit("3");
        reveal_strlit("4");
        reveal_strlit("5");
        reveal_strlit("6");
        reveal_strlit("7");
        reveal_strlit("8");
        reveal_strlit("9");
    }
    match d {
        0 => "0",
        1 => "1",
        2 => "2",
        3 => "3",
        4 => "4",
        5 => "5",
        6 => "6",
        7 => "7",
        8 => "8",
        _ => "9",
    }
}

/// Appends the decimal numeral of `n` to `out`.
fn push_decimal(out: &mut String, n: u32)
    ensures
        final(out)@ == old(out)@ + decimal_of(n as nat),
    decreases n,
{
    if n >= 10 {
        push_decimal(out, n / 10);
    }
    out.append(digit_str(n % 10));
    proof {
        if n >= 10 {
            assert(decimal_of(n as nat) == decimal_of((n / 10) as nat).push(digit_char((n % 10) as nat)));
        }
    }
    assert(final(out)@ =~= old(out)@ + decimal_of(n as nat));
}

/// The decimal numeral of `n`.
pub fn decimal(n: u32) -> (r: String)
    ensures
        r@ == decimal_of(n as nat),
{
    let mut out = String::new();
    push_decimal(&mut out, n);
    assert(out@ =~= decimal_of(n as nat));
    out
}

/// Formats one log line, `SEVERITY:[FILE:LINE]: MESSAGE`, where `file` and
/// `line` name the call site and `msg` is copied verbatim.
pub fn format_line(sev: Severity, file: &str, line: u32, msg: &str) -> (r: String)
    ensures
        r@ == log_line(sev, file@, line as nat, msg@),
{
    proof {
        reveal_strlit(":[");
        reveal_strlit(":");
        reveal_strlit("]: ");
    }
    let mut out = String::from_str(sev.label());
    out.append(":[");
    out.append(file);
    out.append(":");
    push_decimal(&mut out, line);
    out.append("]: ");
    out.append(msg);
    assert(out@ =~= log_line(sev, file@, line as nat, msg@));
    out
}

} // verus!

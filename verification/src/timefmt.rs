use vstd::prelude::*;
use crate::trusted::{TimeParts, local_time_parts};

verus! {

/// The decimal digit character for `d`.
pub open spec fn digit_char(d: int) -> char {
    if d == 0 {
        '0'
    } else if d == 1 {
        '1'
    } else if d == 2 {
        '2'
    } else if d == 3 {
        '3'
    } else if d == 4 {
        '4'
    } else if d == 5 {
        '5'
    } else if d == 6 {
        '6'
    } else if d == 7 {
        '7'
    } else if d == 8 {
        '8'
    } else {
        '9'
    }
}

/// `n` written as two decimal digits, zero-padded.
pub open spec fn two_digits(n: int) -> Seq<char> {
    seq![digit_char(n / 10), digit_char(n % 10)]
}

/// `n` written as four decimal digits, zero-padded.
pub open spec fn four_digits(n: int) -> Seq<char> {
    seq![
        digit_char(n / 1000),
        digit_char((n / 100) % 10),
        digit_char((n / 10) % 10),
        digit_char(n % 10),
    ]
}

/// The fixed modified-time format: "YYYY-MM-DD HH:MM:SS".
pub open spec fn timestamp_text(p: TimeParts) -> Seq<char> {
    four_digits(p.year as int) + seq!['-'] + two_digits(p.month as int) + seq!['-'] + two_digits(
        p.day as int,
    ) + seq![' '] + two_digits(p.hour as int) + seq![':'] + two_digits(p.minute as int) + seq![':']
        + two_digits(p.second as int)
}

/// The one-character text of a decimal digit.
fn digit_str(d: u32) -> (r: &'static str)
    requires
        d < 10,
    ensures
        r@ == seq![digit_char(d as int)],
{
    proof {
        reveal_strlit("0");
        reveal_strlit("1");
        reveal_strlit("2");
        reveal_strlit("3");
        reveal_strlit("4");
        reveal_strlit("5");
        reveal_strlit("6");
        reveal_strlit("7");
        reveal_strlit("8");
        reveal_strlit("9");
        assert("0"@ =~= seq!['0']);
        assert("1"@ =~= seq!['1']);
        assert("2"@ =~= seq!['2']);
        assert("3"@ =~= seq!['3']);
        assert("4"@ =~= seq!['4']);
        assert("5"@ =~= seq!['5']);
        assert("6"@ =~= seq!['6']);
        assert("7"@ =~= seq!['7']);
        assert("8"@ =~= seq!['8']);
        assert("9"@ =~= seq!['9']);
    }
    if d == 0 {
        "0"
    } else if d == 1 {
        "1"
    } else if d == 2 {
        "2"
    } else if d == 3 {
        "3"
    } else if d == 4 {
        "4"
    } else if d == 5 {
        "5"
    } else if d == 6 {
        "6"
    } else if d == 7 {
        "7"
    } else if d == 8 {
        "8"
    } else {
        "9"
    }
}

/// `s` with `n` appended as two zero-padded decimal digits.
fn push_two_digits(s: String, n: u32) -> (r: String)
    requires
        n < 100,
    ensures
        r@ == s@ + two_digits(n as int),
{
    let ghost orig = s@;
    let t = s.concat(digit_str(n / 10)).concat(digit_str(n % 10));
    proof {
        assert(t@ =~= orig + two_digits(n as int));
    }
    t
}

/// `s` with `n` appended as four zero-padded decimal digits.
fn push_four_digits(s: String, n: u32) -> (r: String)
    requires
        n < 10000,
    ensures
        r@ == s@ + four_digits(n as int),
{
    let ghost orig = s@;
    let t = s.concat(digit_str(n / 1000)).concat(digit_str((n / 100) % 10)).concat(
        digit_str((n / 10) % 10),
    ).concat(digit_str(n % 10));
    proof {
        assert(t@ =~= orig + four_digits(n as int));
    }
    t
}

/// Write the calendar fields in the fixed "YYYY-MM-DD HH:MM:SS" form.
pub fn format_timestamp(p: TimeParts) -> (r: String)
    requires
        p.wf(),
        0 <= p.year <= 9999,
    ensures
        r@ == timestamp_text(p),
{
    proof {
        reveal_strlit("-");
        reveal_strlit(" ");
        reveal_strlit(":");
        assert("-"@ =~= seq!['-']);
        assert(" "@ =~= seq![' ']);
        assert(":"@ =~= seq![':']);
    }
    let s = push_four_digits(String::new(), p.year as u32);
    let s = push_two_digits(s.concat("-"), p.month as u32);
    let s = push_two_digits(s.concat("-"), p.day as u32);
    let s = push_two_digits(s.concat(" "), p.hour as u32);
    let s = push_two_digits(s.concat(":"), p.minute as u32);
    let s = push_two_digits(s.concat(":"), p.second as u32);
    proof {
        assert(s@ =~= timestamp_text(p));
    }
    s
}

/// The modified-time column for a timestamp of `secs` seconds since the
/// Unix epoch, read in the local time zone; "Unknown" when no timestamp
/// is available or it cannot be rendered as a four-digit year.
pub fn format_modified_time(secs: Option<i64>) -> (r: String)
    ensures
        secs is None ==> r@ == "Unknown"@,
        secs is Some ==> (r@ == "Unknown"@ || (exists|p: TimeParts|
            p.wf() && 0 <= p.year <= 9999 && r@ == #[trigger] timestamp_text(p))),
{
    match secs {
        None => String::from_str("Unknown"),
        Some(s) => match local_time_parts(s) {
            None => String::from_str("Unknown"),
            Some(p) => {
                if p.year < 0 || p.year > 9999 {
                    String::from_str("Unknown")
                } else {
                    let r = format_timestamp(p);
                    proof {
                        assert(p.wf() && 0 <= p.year <= 9999 && r@ == timestamp_text(p));
                    }
                    r
                }
            },
        },
    }
}

} // verus!

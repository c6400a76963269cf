//! The text lines of a frame's header panel: elapsed hours and
//! thousands-separated aggregate counts.

use vstd::prelude::*;

use crate::state::StateCounts;
use num_format::{Locale, ToFormattedString};

verus! {

use vstd::string::StringExecFns;

/// The character of one decimal digit.
pub open spec fn digit_char(d: int) -> char {
    if d == 0 {
        '0'
    } else if d == 1 {
        '1'
    } else if d == 2 {
        '2'
    } else if d == 3 {
        '3'
    } else if d == 4 {
        '4'
    } else if d == 5 {
        '5'
    } else if d == 6 {
        '6'
    } else if d == 7 {
        '7'
    } else if d == 8 {
        '8'
    } else {
        '9'
    }
}

/// The decimal digit characters of `n`, most significant first.
pub open spec fn decimal_digits(n: nat) -> Seq<char>
    decreases n,
{
    if n < 10 {
        seq![digit_char(n as int)]
    } else {
        decimal_digits(n / 10) + seq![digit_char((n % 10) as int)]
    }
}

/// A group of exactly three digits, zero-padded on the left.
pub open spec fn pad3(n: nat) -> Seq<char> {
    seq![
        digit_char((n / 100) as int),
        digit_char(((n / 10) % 10) as int),
        digit_char((n % 10) as int),
    ]
}

/// Decimal digits with a comma between each group of three digits, counted
/// from the least significant digit.
pub open spec fn grouped_decimal(n: nat) -> Seq<char>
    decreases n,
{
    if n < 1000 {
        decimal_digits(n)
    } else {
        grouped_decimal(n / 1000) + seq![','] + pad3(n % 1000)
    }
}

/// The string of one decimal digit.
fn digit_str(d: u64) -> (r: &'static str)
    requires
        d < 10,
    ensures
        r@ == seq![digit_char(d as int)],
{
    proof {
        reveal_strlit("0");
        reveal_strlit("1");
        reveal_strlit("2");
        reveal_strlit("3");
        reveal_strlit("4");
        reveal_strlit("5");
        reveal_strlit("6");
        reveal_strlit("7");
        reveal_strlit("8");
        reveal_strlit("9");
    }
    if d == 0 {
        proof {
            assert("0"@ =~= seq![digit_char(0)]);
        }
        "0"
    } else if d == 1 {
        proof {
            assert("1"@ =~= seq![digit_char(1)]);
        }
        "1"
    } else if d == 2 {
        proof {
            assert("2"@ =~= seq![digit_char(2)]);
        }
        "2"
    } else if d == 3 {
        proof {
            assert("3"@ =~= seq![digit_char(3)]);
        }
        "3"
    } else if d == 4 {
        proof {
            assert("4"@ =~= seq![digit_char(4)]);
        }
        "4"
    } else if d == 5 {
        proof {
            assert("5"@ =~= seq![digit_char(5)]);
        }
        "5"
    } else if d == 6 {
        proof {
            assert("6"@ =~= seq![digit_char(6)]);
        }
        "6"
    } else if d == 7 {
        proof {
            assert("7"@ =~= seq![digit_char(7)]);
        }
        "7"
    } else if d == 8 {
        proof {
            assert("8"@ =~= seq![digit_char(8)]);
        }
        "8"
    } else {
        proof {
            assert("9"@ =~= seq![digit_char(9)]);
        }
        "9"
    }
}

/// Plain decimal rendering of `n`.
pub fn u64_to_decimal(n: u64) -> (r: String)
    ensures
        r@ == decimal_digits(n as nat),
    decreases n,
{
    if n < 10 {
        String::from_str(digit_str(n))
    } else {
        let mut s = u64_to_decimal(n / 10);
        s.append(digit_str(n % 10));
        s
    }
}

/// Relies on num_format's `ToFormattedString` with the `en` locale: decimal
/// digits in standard three-digit groups separated by commas.
#[verifier::external_body]
fn thousands_grouped(n: u64) -> (r: String)
    ensures
        r@ == grouped_decimal(n as nat),
{
    n.to_formatted_string(&Locale::en)
}

/// Thousands-separated rendering of `n`, for the header panel.
pub fn grouped_count(n: u64) -> (r: String)
    ensures
        r@ == grouped_decimal(n as nat),
{
    thousands_grouped(n)
}

/// The decimal digits of `n`, zero-padded on the left to at least four
/// characters: the frame's sequence label, whose lexicographic order matches
/// temporal order.
pub open spec fn padded_frame_label(n: nat) -> Seq<char> {
    if n < 10 {
        seq!['0', '0', '0'] + decimal_digits(n)
    } else if n < 100 {
        seq!['0', '0'] + decimal_digits(n)
    } else if n < 1000 {
        seq!['0'] + decimal_digits(n)
    } else {
        decimal_digits(n)
    }
}

/// Zero-padded sequential frame index, minimum four digits.
pub fn frame_index_label(idx: u64) -> (r: String)
    ensures
        r@ == padded_frame_label(idx as nat),
{
    proof {
        reveal_strlit("000");
        reveal_strlit("00");
        reveal_strlit("0");
        reveal_strlit("");
    }
    let mut s = if idx < 10 {
        String::from_str("000")
    } else if idx < 100 {
        String::from_str("00")
    } else if idx < 1000 {
        String::from_str("0")
    } else {
        String::from_str("")
    };
    let digits = u64_to_decimal(idx);
    s.append(digits.as_str());
    proof {
        assert("000"@ =~= seq!['0', '0', '0']);
        assert("00"@ =~= seq!['0', '0']);
        assert("0"@ =~= seq!['0']);
        assert(""@ =~= Seq::<char>::empty());
        if idx >= 1000 {
            assert(Seq::<char>::empty() + decimal_digits(idx as nat) =~= decimal_digits(
                idx as nat,
            ));
        }
    }
    s
}

/// The six header lines of one frame: elapsed whole hours, the four
/// thousands-separated lifecycle counts, and the thousands-separated rate.
pub fn summary_lines(hours: i64, counts: &StateCounts, rate: u64) -> (r: Vec<String>)
    requires
        hours >= 0,
    ensures
        r@.len() == 6,
        r@[0]@ == "Hours: "@ + decimal_digits(hours as nat),
        r@[1]@ == "Present: "@ + grouped_decimal(counts.present as nat),
        r@[2]@ == "Delete Marker: "@ + grouped_decimal(counts.delete_marker as nat),
        r@[3]@ == "Expired: "@ + grouped_decimal(counts.expired as nat),
        r@[4]@ == "Completed: "@ + grouped_decimal(counts.delete_marker_deleted as nat),
        r@[5]@ == "Per second: "@ + grouped_decimal(rate as nat),
{
    let mut hours_line = String::from_str("Hours: ");
    let hours_digits = u64_to_decimal(hours as u64);
    hours_line.append(hours_digits.as_str());

    let mut present_line = String::from_str("Present: ");
    let present_digits = grouped_count(counts.present as u64);
    present_line.append(present_digits.as_str());

    let mut marker_line = String::from_str("Delete Marker: ");
    let marker_digits = grouped_count(counts.delete_marker as u64);
    marker_line.append(marker_digits.as_str());

    let mut expired_line = String::from_str("Expired: ");
    let expired_digits = grouped_count(counts.expired as u64);
    expired_line.append(expired_digits.as_str());

    let mut completed_line = String::from_str("Completed: ");
    let completed_digits = grouped_count(counts.delete_marker_deleted as u64);
    completed_line.append(completed_digits.as_str());

    let mut rate_line = String::from_str("Per second: ");
    let rate_digits = grouped_count(rate);
    rate_line.append(rate_digits.as_str());

    let mut r: Vec<String> = Vec::new();
    r.push(hours_line);
    r.push(present_line);
    r.push(marker_line);
    r.push(expired_line);
    r.push(completed_line);
    r.push(rate_line);
    r
}

} // verus!

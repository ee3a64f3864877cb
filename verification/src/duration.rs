//! Formatting a duration in seconds as `M:SS`.
//!
//! Minutes are printed in full decimal with no leading zeros; seconds are
//! always two digits, zero-padded.

use vstd::prelude::*;
use vstd::string::StringExecFns;

verus! {

/// The decimal digit character for a value in `0 ..= 9`.
pub open spec fn spec_digit(d: int) -> char
    recommends
        0 <= d <= 9,
{
    ((48 + d) as u8) as char
}

/// The decimal representation of a non-negative number, without leading
/// zeros (a single `0` for zero).
pub open spec fn spec_decimal(n: int) -> Seq<char>
    recommends
        n >= 0,
    decreases n,
{
    if n < 10 {
        seq![spec_digit(n)]
    } else {
        spec_decimal(n / 10) + seq![spec_digit(n % 10)]
    }
}

/// The characters of a duration in seconds, as `M:SS`.
pub open spec fn spec_format_duration(secs: u64) -> Seq<char> {
    spec_decimal(secs as int / 60) + seq![':'] + seq![
        spec_digit((secs as int % 60) / 10),
        spec_digit((secs as int % 60) % 10),
    ]
}

/// One decimal digit as a string slice.
fn digit_str(d: u8) -> (s: &'static str)
    requires
        d <= 9,
    ensures
        s@ == seq![spec_digit(d as int)],
{
    let s: &'static str = match d {
        0 => "0",
        1 => "1",
        2 => "2",
        3 => "3",
        4 => "4",
        5 => "5",
        6 => "6",
        7 => "7",
        8 => "8",
        _ => "9",
    };
    proof {
        reveal_strlit("0");
        reveal_strlit("1");
        reveal_strlit("2");
        reveal_strlit("3");
        reveal_strlit("4");
        reveal_strlit("5");
        reveal_strlit("6");
        reveal_strlit("7");
        reveal_strlit("8");
        reveal_strlit("9");
        assert(s@ =~= seq![spec_digit(d as int)]);
    }
    s
}

/// The digit characters of `digits` read back to front.
spec fn rev_digit_chars(digits: Seq<u8>) -> Seq<char> {
    Seq::new(digits.len(), |i: int| spec_digit(digits[digits.len() - 1 - i] as int))
}

/// Format a duration in seconds as `M:SS`.
pub fn format_duration(secs: u64) -> (s: String)
    ensures
        s@ == spec_format_duration(secs),
{
    let minutes = secs / 60;
    let rem = secs % 60;

    // Collect the minutes' decimal digits, least significant first.
    let mut digits: Vec<u8> = Vec::new();
    let mut m = minutes;
    while m >= 10
        invariant
            forall|j: int| 0 <= j < digits@.len() ==> digits@[j] <= 9,
            spec_decimal(minutes as int) == spec_decimal(m as int) + rev_digit_chars(digits@),
        decreases m,
    {
        let d = (m % 10) as u8;
        let ghost before = digits@;
        digits.push(d);
        m = m / 10;
        proof {
            assert(rev_digit_chars(digits@) =~= seq![spec_digit(d as int)] + rev_digit_chars(
                before,
            ));
            assert(spec_decimal(minutes as int) =~= spec_decimal(m as int) + rev_digit_chars(
                digits@,
            ));
        }
    }
    let ghost before = digits@;
    digits.push(m as u8);
    proof {
        assert(rev_digit_chars(digits@) =~= seq![spec_digit(m as int)] + rev_digit_chars(before));
        assert(spec_decimal(m as int) =~= seq![spec_digit(m as int)]);
        assert(rev_digit_chars(digits@) =~= spec_decimal(minutes as int));
    }

    let mut s = String::new();
    let dlen = digits.len();
    let mut k: usize = 0;
    while k < dlen
        invariant
            dlen == digits@.len(),
            k <= dlen,
            forall|j: int| 0 <= j < digits@.len() ==> digits@[j] <= 9,
            rev_digit_chars(digits@) == spec_decimal(minutes as int),
            s@ == spec_decimal(minutes as int).subrange(0, k as int),
        decreases dlen - k,
    {
        let piece = digit_str(digits[dlen - 1 - k]);
        s.append(piece);
        proof {
            assert(spec_decimal(minutes as int)[k as int] == spec_digit(
                digits@[dlen - 1 - k] as int,
            ));
            assert(s@ =~= spec_decimal(minutes as int).subrange(0, k + 1));
        }
        k = k + 1;
    }
    proof {
        assert(s@ =~= spec_decimal(minutes as int));
    }

    s.append(":");
    proof {
        reveal_strlit(":");
        assert(":"@ =~= seq![':']);
    }
    let tens = (rem / 10) as u8;
    let ones = (rem % 10) as u8;
    s.append(digit_str(tens));
    s.append(digit_str(ones));
    proof {
        assert(s@ =~= spec_format_duration(secs));
    }
    s
}

} // verus!

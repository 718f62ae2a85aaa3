//! The pure half of driving a Catch2 executable: the arguments that make it
//! emit a JUnit report, and the duration parser its reports need.

use crate::duration::duration_from_secs;
use crate::strutil::all_digits;
use crate::strutil::digits_val;
use crate::strutil::parse_digits;
use vstd::prelude::*;

verus! {

/// The arguments that make a Catch2 executable report in JUnit form.
pub fn add_arguments(argv: Vec<String>) -> (r: Vec<String>)
    ensures
        r@.len() == argv@.len() + 2,
        forall|i: int| 0 <= i < argv@.len() ==> #[trigger] r@[i] == argv@[i],
        r@[argv@.len() as int]@ == "-r"@,
        r@[argv@.len() as int + 1]@ == "junit"@,
{
    let mut argv = argv;
    argv.push(String::from_str("-r"));
    argv.push(String::from_str("junit"));
    argv
}

/// The number a whole string of decimal digits denotes, allowing the
/// leading plus sign the standard integer parser allows; nothing when a
/// character is no digit, the digits are missing, or the value does not
/// fit in 64 bits.
pub open spec fn spec_parse_u64(s: Seq<char>) -> Option<int> {
    let digits = if s.len() > 0 && s[0] == '+' {
        s.skip(1)
    } else {
        s
    };
    if digits.len() > 0 && all_digits(digits) && digits_val(digits) <= u64::MAX {
        Some(digits_val(digits))
    } else {
        None
    }
}

/// Parse a whole string as an unsigned 64-bit number.
pub fn parse_u64(s: &str) -> (r: Option<u64>)
    ensures
        match r {
            Some(v) => spec_parse_u64(s@) == Some(v as int),
            None => spec_parse_u64(s@) is None,
        },
{
    let n = s.unicode_len();
    let from: usize = if n > 0 && s.get_char(0) == '+' {
        1
    } else {
        0
    };
    proof {
        if from == 1 {
            assert(s@.subrange(1, n as int) =~= s@.skip(1));
        } else {
            assert(s@.subrange(0, n as int) =~= s@);
        }
    }
    if from == n {
        return None;
    }
    parse_digits(s, from, n)
}

/// Parse a whole-second duration, as Catch2 reports them.
pub fn parse_duration(s: &str) -> (r: Option<std::time::Duration>)
    ensures
        r is Some <==> spec_parse_u64(s@) is Some,
{
    match parse_u64(s) {
        Some(secs) => Some(duration_from_secs(secs)),
        None => None,
    }
}

} // verus!

//! Human-readable formatting helpers: byte counts with a scaled unit, and
//! redaction of secrets for logging.

use vstd::prelude::*;
use vstd::string::StrSliceExecFns;
use vstd::string::StringExecFns;

use crate::strutil::digit_char;
use crate::strutil::spec_u64_str;
use crate::strutil::u64_to_string;

verus! {

/// `format_bytes` accepts byte counts below one pebibyte; the unit table
/// stops at terabytes.
pub const MAX_FORMAT_BYTES: u64 = 1125899906842624;

/// The unit scale for a non-zero byte count: 0 up to a kibibyte, then one
/// step per factor of 1024, capped at the terabyte entry.
pub open spec fn spec_unit_index(bytes: u64) -> int {
    if bytes < 1024 {
        0
    } else if bytes < 1048576 {
        1
    } else if bytes < 1073741824 {
        2
    } else if bytes < 1099511627776 {
        3
    } else {
        4
    }
}

/// 1024 to the power `i`, for the unit scales in use.
pub open spec fn spec_unit_divisor(i: int) -> int {
    if i == 0 {
        1
    } else if i == 1 {
        1024
    } else if i == 2 {
        1048576
    } else if i == 3 {
        1073741824
    } else {
        1099511627776
    }
}

/// The unit label for scale `i`.
pub open spec fn spec_unit_name(i: int) -> Seq<char> {
    if i == 0 {
        "Bytes"@
    } else if i == 1 {
        "KB"@
    } else if i == 2 {
        "MB"@
    } else if i == 3 {
        "GB"@
    } else {
        "TB"@
    }
}

/// The rendering of a byte count: zero is special-cased, any other count is
/// scaled by the largest applicable power of 1024 and shown with two
/// decimals (rounded half away from zero) and the unit label.
pub open spec fn spec_format_bytes(bytes: u64) -> Seq<char> {
    if bytes == 0 {
        "0 Byte"@
    } else {
        let i = spec_unit_index(bytes);
        let p = spec_unit_divisor(i);
        let v = ((bytes * 100 + p / 2) / p) as int;
        spec_u64_str(v / 100) + "."@ + seq![digit_char((v % 100) / 10), digit_char(v % 10)] + " "@
            + spec_unit_name(i)
    }
}

fn unit_divisor_and_name(bytes: u64) -> (r: (u64, String))
    requires
        bytes > 0,
    ensures
        r.0 == spec_unit_divisor(spec_unit_index(bytes)),
        r.1@ == spec_unit_name(spec_unit_index(bytes)),
{
    if bytes < 1024 {
        (1, String::from_str("Bytes"))
    } else if bytes < 1048576 {
        (1024, String::from_str("KB"))
    } else if bytes < 1073741824 {
        (1048576, String::from_str("MB"))
    } else if bytes < 1099511627776 {
        (1073741824, String::from_str("GB"))
    } else {
        (1099511627776, String::from_str("TB"))
    }
}

fn digit_to_char_u64(d: u64) -> (c: char)
    requires
        d < 10,
    ensures
        c == digit_char(d as int),
{
    if d == 0 {
        '0'
    } else if d == 1 {
        '1'
    } else if d == 2 {
        '2'
    } else if d == 3 {
        '3'
    } else if d == 4 {
        '4'
    } else if d == 5 {
        '5'
    } else if d == 6 {
        '6'
    } else if d == 7 {
        '7'
    } else if d == 8 {
        '8'
    } else {
        '9'
    }
}

/// Renders a byte count with a scaled unit and two decimals.
pub fn format_bytes(bytes: u64) -> (r: String)
    requires
        bytes < MAX_FORMAT_BYTES,
    ensures
        r@ == spec_format_bytes(bytes),
{
    if bytes == 0 {
        return String::from_str("0 Byte");
    }
    let (p, unit) = unit_divisor_and_name(bytes);
    let v = (bytes * 100 + p / 2) / p;
    let mut r = u64_to_string(v / 100);
    let frac = v % 100;
    let mut tail = String::new();
    crate::strutil::push_char(&mut tail, '.');
    crate::strutil::push_char(&mut tail, digit_to_char_u64(frac / 10));
    crate::strutil::push_char(&mut tail, digit_to_char_u64(v % 10));
    crate::strutil::push_char(&mut tail, ' ');
    r.append(tail.as_str());
    r.append(unit.as_str());
    proof {
        reveal_strlit(".");
        reveal_strlit(" ");
        assert((frac / 10) as int == ((v as int) % 100) / 10);
        assert(r@ =~= spec_format_bytes(bytes));
    }
    r
}

/// The redacted rendering of a secret: its first two and last two
/// characters around an ellipsis, or a fixed marker when it is too short
/// for that to hide anything.
pub open spec fn spec_format_secret(s: Seq<char>) -> Seq<char> {
    if s.len() >= 4 {
        s.subrange(0, 2) + "..."@ + s.subrange(s.len() - 2, s.len() as int)
    } else {
        "(too short)"@
    }
}

/// Redacts a secret for logging.
pub fn format_secret(secret: &str) -> (r: String)
    ensures
        r@ == spec_format_secret(secret@),
{
    let n = secret.unicode_len();
    if n >= 4 {
        let mut r = secret.substring_char(0, 2).to_owned();
        r.append("...");
        r.append(secret.substring_char(n - 2, n));
        proof {
            assert(r@ =~= spec_format_secret(secret@));
        }
        r
    } else {
        String::from_str("(too short)")
    }
}

} // verus!

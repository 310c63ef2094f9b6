//! Small string utilities: URL detection and human-readable byte counts.

use vstd::prelude::*;
use vstd::string::StrSliceExecFns;
use vstd::string::StringExecFns;

verus! {

/// `prefix` stands at the front of `s`.
pub open spec fn is_prefix_of(prefix: Seq<char>, s: Seq<char>) -> bool {
    prefix.len() <= s.len() && s.subrange(0, prefix.len() as int) == prefix
}

/// Whether `prefix` stands at the front of `s`, by characters.
pub fn starts_with_chars(s: &str, prefix: &str) -> (r: bool)
    ensures
        r == is_prefix_of(prefix@, s@),
{
    let n = prefix.unicode_len();
    if s.unicode_len() < n {
        return false;
    }
    let head = s.substring_char(0, n);
    let eq = String::from_str(head) == String::from_str(prefix);
    proof {
        if head@ == prefix@ {
            assert(s@.subrange(0, prefix@.len() as int) == prefix@);
        }
    }
    eq
}

/// A path is treated as a URL when it carries an HTTP or HTTPS scheme.
pub fn is_url(path: &str) -> (r: bool)
    ensures
        r == (is_prefix_of("http://"@, path@) || is_prefix_of("https://"@, path@)),
{
    starts_with_chars(path, "http://") || starts_with_chars(path, "https://")
}

/// Relies on std's `String::push`: appends the given character to the end of
/// the string.
pub assume_specification[ String::push ](s: &mut String, c: char)
    ensures
        final(s)@ == old(s)@.push(c),
;

/// The decimal digit `n`, for `0 <= n <= 9`.
pub open spec fn dec_digit(n: int) -> char {
    if n == 0 {
        '0'
    } else if n == 1 {
        '1'
    } else if n == 2 {
        '2'
    } else if n == 3 {
        '3'
    } else if n == 4 {
        '4'
    } else if n == 5 {
        '5'
    } else if n == 6 {
        '6'
    } else if n == 7 {
        '7'
    } else if n == 8 {
        '8'
    } else {
        '9'
    }
}

/// The decimal rendering of `n`, without sign or leading zeros.
pub open spec fn dec_str(n: nat) -> Seq<char>
    decreases n,
{
    if n < 10 {
        seq![dec_digit(n as int)]
    } else {
        dec_str(n / 10) + seq![dec_digit((n % 10) as int)]
    }
}

fn dec_digit_char(d: u64) -> (c: char)
    requires
        d <= 9,
    ensures
        c == dec_digit(d as int),
{
    match d {
        0 => '0',
        1 => '1',
        2 => '2',
        3 => '3',
        4 => '4',
        5 => '5',
        6 => '6',
        7 => '7',
        8 => '8',
        _ => '9',
    }
}

/// Renders `n` in decimal.
pub fn u64_to_dec(n: u64) -> (r: String)
    ensures
        r@ == dec_str(n as nat),
    decreases n,
{
    if n < 10 {
        let mut r = String::new();
        r.push(dec_digit_char(n));
        r
    } else {
        let mut r = u64_to_dec(n / 10);
        r.push(dec_digit_char(n % 10));
        r
    }
}

/// The unit suffix for scale `k` (0 bytes, 1 kibibytes, 2 mebibytes, 3 gibibytes).
pub open spec fn byte_unit(k: int) -> Seq<char> {
    if k == 0 {
        "B"@
    } else if k == 1 {
        "KB"@
    } else if k == 2 {
        "MB"@
    } else {
        "GB"@
    }
}

/// The scale that `format_bytes` picks: the largest of the four units that
/// keeps the whole-number part of the count nonzero, capped at gibibytes.
pub open spec fn byte_scale(b: nat) -> int {
    if b < 1024 {
        0
    } else if b < 1024 * 1024 {
        1
    } else if b < 1024 * 1024 * 1024 {
        2
    } else {
        3
    }
}

/// `1024` to the power `k`, for the four scales used here.
pub open spec fn byte_divisor(k: int) -> nat {
    if k == 0 {
        1
    } else if k == 1 {
        1024
    } else if k == 2 {
        1024 * 1024
    } else {
        1024 * 1024 * 1024
    }
}

/// The count scaled to its unit in tenths, rounded half up.
pub open spec fn byte_tenths(b: nat) -> nat {
    (b * 10 + byte_divisor(byte_scale(b)) / 2) / byte_divisor(byte_scale(b))
}

/// The human-readable rendering of a byte count: the scaled count with one
/// decimal digit, a space, and the unit.
pub open spec fn format_bytes_spec(b: nat) -> Seq<char> {
    dec_str(byte_tenths(b) / 10) + seq!['.', dec_digit((byte_tenths(b) % 10) as int), ' ']
        + byte_unit(byte_scale(b))
}

fn byte_unit_str(k: u64) -> (r: &'static str)
    requires
        k <= 3,
    ensures
        r@ == byte_unit(k as int),
{
    if k == 0 {
        "B"
    } else if k == 1 {
        "KB"
    } else if k == 2 {
        "MB"
    } else {
        "GB"
    }
}

/// Renders a byte count for humans, scaled to the largest fitting unit with
/// one decimal digit, as in `1.5 KB`.
pub fn format_bytes(bytes: u64) -> (r: String)
    ensures
        r@ == format_bytes_spec(bytes as nat),
{
    let k: u64 = if bytes < 1024 {
        0
    } else if bytes < 1024 * 1024 {
        1
    } else if bytes < 1024 * 1024 * 1024 {
        2
    } else {
        3
    };
    let divisor: u64 = if k == 0 {
        1
    } else if k == 1 {
        1024
    } else if k == 2 {
        1024 * 1024
    } else {
        1024 * 1024 * 1024
    };
    let wide: u128 = (bytes as u128) * 10 + (divisor as u128) / 2;
    let tenths_wide: u128 = wide / (divisor as u128);
    proof {
        assert(tenths_wide <= u64::MAX) by {
            if k == 0 {
                assert(divisor == 1);
            } else if k == 1 {
                assert(divisor == 1024);
            } else if k == 2 {
                assert(divisor == 1024 * 1024);
            } else {
                assert(divisor == 1024 * 1024 * 1024);
                assert(wide as int <= (u64::MAX as int) * 10 + 536870912int);
                vstd::arithmetic::div_mod::lemma_div_is_ordered(
                    wide as int,
                    (u64::MAX as int) * 10 + 536870912int,
                    1073741824int,
                );
            }
        };
        assert(tenths_wide == byte_tenths(bytes as nat));
    }
    let tenths: u64 = tenths_wide as u64;
    let mut r = u64_to_dec(tenths / 10);
    r.push('.');
    r.push(dec_digit_char(tenths % 10));
    r.push(' ');
    r.append(byte_unit_str(k));
    proof {
        assert(r@ =~= format_bytes_spec(bytes as nat));
    }
    r
}

} // verus!

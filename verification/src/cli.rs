//! Sizes and addresses as they are written on a command line.

use vstd::prelude::*;
use vstd::string::*;

pub mod laws;

use crate::text::{parse_number, starts_with, trim};

verus! {

/// The argument is not a size like `32k` or `32768`.
#[derive(Clone, Copy, PartialEq, Eq, Structural, Debug)]
pub struct NotASize;

/// The argument is not an address like `0x47000000`.
#[derive(Clone, Copy, PartialEq, Eq, Structural, Debug)]
pub struct NotAnAddress;

/// A size ends in the letter for kibibytes, in either case.
pub open spec fn in_kib(t: Seq<char>) -> bool {
    t.len() > 0 && (t.last() == 'k' || t.last() == 'K')
}

/// The size an argument spells: a decimal number of bytes, or of kibibytes.
pub open spec fn size_value(s: Seq<char>) -> Option<int> {
    let t = crate::text::trimmed(s);
    if in_kib(t) {
        match crate::text::number(t.drop_last(), 10) {
            Some(n) => Some(n * 1024),
            None => None,
        }
    } else {
        crate::text::number(t, 10)
    }
}

/// A number is hexadecimal: it starts with `0x`, in either case.
pub open spec fn is_hex(t: Seq<char>) -> bool {
    t.len() >= 2 && t[0] == '0' && (t[1] == 'x' || t[1] == 'X')
}

/// The number an argument spells, decimal or hexadecimal.
pub open spec fn dec_or_hex(t: Seq<char>) -> Option<int> {
    if is_hex(t) {
        crate::text::number(t.subrange(2, t.len() as int), 16)
    } else {
        crate::text::number(t, 10)
    }
}

/// Parse a size. One that does not fit in a `usize` is no size.
pub fn parse_size(s: &str) -> (r: Result<usize, NotASize>)
    ensures
        match r {
            Ok(v) => size_value(s@) == Some(v as int),
            Err(_) => size_value(s@) matches Some(v) ==> v > usize::MAX,
        },
{
    let t: &str = trim(s);
    let len: usize = t.unicode_len();
    let max: u64 = usize::MAX as u64;
    if len > 0 {
        let last: char = t.get_char(len - 1);
        if last == 'k' || last == 'K' {
            let digits: &str = t.substring_char(0, len - 1);
            assert(digits@ =~= t@.drop_last());
            return match parse_number(digits, 10, max / 1024) {
                Some(n) => Ok((n * 1024) as usize),
                None => Err(NotASize),
            };
        }
    }
    match parse_number(t, 10, max) {
        Some(n) => Ok(n as usize),
        None => Err(NotASize),
    }
}

/// Parse a number written in decimal, or in hexadecimal behind `0x`.
pub fn parse_dec_or_hex(t: &str, max: u64) -> (r: Option<u64>)
    ensures
        match r {
            Some(v) => dec_or_hex(t@) == Some(v as int) && v <= max,
            None => dec_or_hex(t@) matches Some(v) ==> v > max,
        },
{
    proof {
        reveal_strlit("0x");
        reveal_strlit("0X");
        let two = t@.subrange(0, 2);
        assert(t@.len() >= 2 ==> two.len() == 2 && two[0] == t@[0] && two[1] == t@[1]);
        assert(crate::text::has_prefix(t@, "0x"@) ==> is_hex(t@)) by {
            if crate::text::has_prefix(t@, "0x"@) {
                assert("0x"@[0] == two[0] && "0x"@[1] == two[1]);
            }
        }
        assert(crate::text::has_prefix(t@, "0X"@) ==> is_hex(t@)) by {
            if crate::text::has_prefix(t@, "0X"@) {
                assert("0X"@[0] == two[0] && "0X"@[1] == two[1]);
            }
        }
        if is_hex(t@) {
            if t@[1] == 'x' {
                assert(two =~= "0x"@);
            } else {
                assert(two =~= "0X"@);
            }
        }
    }
    if starts_with(t, "0x") || starts_with(t, "0X") {
        parse_number(t.substring_char(2, t.unicode_len()), 16, max)
    } else {
        parse_number(t, 10, max)
    }
}

/// Parse an address.
pub fn parse_addr(s: &str) -> (r: Result<u64, NotAnAddress>)
    ensures
        match r {
            Ok(v) => dec_or_hex(crate::text::trimmed(s@)) == Some(v as int),
            Err(_) => dec_or_hex(crate::text::trimmed(s@)) matches Some(v) ==> v > u64::MAX,
        },
{
    match parse_dec_or_hex(trim(s), u64::MAX) {
        Some(v) => Ok(v),
        None => Err(NotAnAddress),
    }
}

} // verus!

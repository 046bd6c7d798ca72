//! Reading numbers and words off a command line, and writing numbers out.

use vstd::prelude::*;
use vstd::string::*;

pub mod laws;

verus! {

// ── Definition ──────────────────────────────────────────────────────────

/// The value of a digit, upper or lower case, in some radix up to 16.
pub open spec fn digit_value(c: char, radix: int) -> Option<int> {
    let v = if '0' <= c <= '9' {
        c as int - '0' as int
    } else if 'a' <= c <= 'f' {
        c as int - 'a' as int + 10
    } else if 'A' <= c <= 'F' {
        c as int - 'A' as int + 10
    } else {
        radix
    };
    if v < radix {
        Some(v)
    } else {
        None
    }
}

/// The number some digits spell, most significant first, if they all are
/// digits. No digits spell zero.
pub open spec fn digits_value(s: Seq<char>, radix: int) -> Option<int>
    decreases s.len(),
{
    if s.len() == 0 {
        Some(0)
    } else {
        match (digits_value(s.drop_last(), radix), digit_value(s.last(), radix)) {
            (Some(high), Some(low)) => Some(high * radix + low),
            _ => None,
        }
    }
}

/// `s` without a leading plus sign.
pub open spec fn unsigned_part(s: Seq<char>) -> Seq<char> {
    if s.len() > 0 && s[0] == '+' {
        s.subrange(1, s.len() as int)
    } else {
        s
    }
}

/// The number `s` spells: at least one digit, with a plus sign in front or
/// not.
pub open spec fn number(s: Seq<char>, radix: int) -> Option<int> {
    let digits = unsigned_part(s);
    if digits.len() == 0 {
        None
    } else {
        digits_value(digits, radix)
    }
}

/// The number `s` spells, if it is at most `max`.
pub open spec fn number_up_to(s: Seq<char>, radix: int, max: int) -> Option<int> {
    match number(s, radix) {
        Some(v) => if v <= max {
            Some(v)
        } else {
            None
        },
        None => None,
    }
}

/// `s` starts with `prefix`.
pub open spec fn has_prefix(s: Seq<char>, prefix: Seq<char>) -> bool {
    prefix.len() <= s.len() && s.subrange(0, prefix.len() as int) == prefix
}

/// White space, as Unicode has it.
pub open spec fn is_space(c: char) -> bool {
    let v = c as int;
    9 <= v <= 13 || v == 32 || v == 0x85 || v == 0xA0 || v == 0x1680 || 0x2000 <= v <= 0x200A || v
        == 0x2028 || v == 0x2029 || v == 0x202F || v == 0x205F || v == 0x3000
}

/// `s` without the white space in front of it.
pub open spec fn trim_front(s: Seq<char>) -> Seq<char>
    decreases s.len(),
{
    if s.len() > 0 && is_space(s[0]) {
        trim_front(s.subrange(1, s.len() as int))
    } else {
        s
    }
}

/// `s` without the white space behind it.
pub open spec fn trim_back(s: Seq<char>) -> Seq<char>
    decreases s.len(),
{
    if s.len() > 0 && is_space(s.last()) {
        trim_back(s.drop_last())
    } else {
        s
    }
}

/// `s` without the white space around it.
pub open spec fn trimmed(s: Seq<char>) -> Seq<char> {
    trim_back(trim_front(s))
}

/// The decimal digit of `d`.
pub open spec fn digit(d: int) -> char {
    (48 + d) as char
}

/// `n` in decimal.
pub open spec fn decimal(n: nat) -> Seq<char>
    decreases n,
{
    if n < 10 {
        seq![digit(n as int)]
    } else {
        decimal(n / 10).push(digit((n % 10) as int))
    }
}

// ── Laws ────────────────────────────────────────────────────────────────

/// A number written out in decimal reads back as itself.
pub proof fn decimal_reads_back(n: nat)
    ensures
        number(decimal(n), 10) == Some(n as int),
{
    lemma_decimal_digits(n);
    assert(decimal(n)[0] != '+') by {
        lemma_decimal_starts_with_a_digit(n);
    }
}

proof fn lemma_decimal_digits(n: nat)
    ensures
        decimal(n).len() > 0,
        digits_value(decimal(n), 10) == Some(n as int),
    decreases n,
{
    let s = decimal(n);
    if n < 10 {
        assert(s.drop_last() =~= Seq::<char>::empty());
        assert(digits_value(s.drop_last(), 10) == Some(0int));
    } else {
        lemma_decimal_digits(n / 10);
        assert(s.drop_last() =~= decimal(n / 10));
        assert((n / 10) * 10 + n % 10 == n);
    }
}

proof fn lemma_decimal_starts_with_a_digit(n: nat)
    ensures
        decimal(n).len() > 0,
        '0' <= decimal(n)[0] <= '9',
    decreases n,
{
    if n >= 10 {
        lemma_decimal_starts_with_a_digit(n / 10);
    }
}

/// Digits never spell a negative number.
pub proof fn lemma_digits_value_bounds(s: Seq<char>, radix: int)
    requires
        2 <= radix <= 16,
    ensures
        digits_value(s, radix) matches Some(v) ==> v >= 0,
    decreases s.len(),
{
    if s.len() > 0 {
        lemma_digits_value_bounds(s.drop_last(), radix);
        match (digits_value(s.drop_last(), radix), digit_value(s.last(), radix)) {
            (Some(high), Some(low)) => {
                assert(high * radix >= 0) by (nonlinear_arith)
                    requires
                        high >= 0,
                        radix >= 2,
                ;
            },
            _ => {},
        }
    }
}

/// A longer string of digits spells at least as much.
proof fn lemma_prefix_spells_less(s: Seq<char>, k: int, radix: int)
    requires
        2 <= radix <= 16,
        0 <= k <= s.len(),
        digits_value(s, radix) is Some,
    ensures
        digits_value(s.subrange(0, k), radix) is Some,
        digits_value(s.subrange(0, k), radix)->Some_0 <= digits_value(s, radix)->Some_0,
    decreases s.len(),
{
    if k == s.len() {
        assert(s.subrange(0, k) =~= s);
    } else {
        let t = s.drop_last();
        lemma_prefix_spells_less(t, k, radix);
        assert(t.subrange(0, k) =~= s.subrange(0, k));
        lemma_digits_value_bounds(t, radix);
        let high = digits_value(t, radix)->Some_0;
        assert(high * radix >= high) by (nonlinear_arith)
            requires
                high >= 0,
                radix >= 2,
        ;
    }
}

// ── Functions ───────────────────────────────────────────────────────────

/// The value of a digit.
fn digit_of(c: char, radix: u64) -> (v: Option<u64>)
    requires
        2 <= radix <= 16,
    ensures
        match v {
            Some(v) => digit_value(c, radix as int) == Some(v as int),
            None => digit_value(c, radix as int) is None,
        },
{
    let code: u32 = c as u32;
    let v: u64 = if 48 <= code && code <= 57 {
        (code - 48) as u64
    } else if 97 <= code && code <= 102 {
        (code - 97) as u64 + 10
    } else if 65 <= code && code <= 70 {
        (code - 65) as u64 + 10
    } else {
        radix
    };
    if v < radix {
        Some(v)
    } else {
        None
    }
}

/// Parse an unsigned number: at least one digit, with a plus sign in front
/// or not, of at most `max`.
pub fn parse_number(s: &str, radix: u64, max: u64) -> (r: Option<u64>)
    requires
        2 <= radix <= 16,
    ensures
        match r {
            Some(v) => number_up_to(s@, radix as int, max as int) == Some(v as int),
            None => number_up_to(s@, radix as int, max as int) is None,
        },
{
    let len: usize = s.unicode_len();
    let start: usize = if len > 0 && s.get_char(0) == '+' {
        1
    } else {
        0
    };
    let ghost digits = unsigned_part(s@);
    if start == len {
        assert(digits.len() == 0);
        return None;
    }
    assert(digits =~= s@.subrange(start as int, len as int));
    let mut value: u64 = 0;
    let mut i: usize = start;
    while i < len
        invariant
            2 <= radix <= 16,
            start <= i <= len,
            start < len,
            len == s@.len(),
            digits == s@.subrange(start as int, len as int),
            digits == unsigned_part(s@),
            value <= max,
            digits_value(digits.subrange(0, i - start), radix as int) == Some(value as int),
        decreases len - i,
    {
        let ghost seen = digits.subrange(0, i - start);
        let ghost more = digits.subrange(0, i + 1 - start);
        proof {
            assert(more.drop_last() =~= seen);
            assert(more.last() == s@[i as int]);
        }
        let d: u64 = match digit_of(s.get_char(i), radix) {
            Some(d) => d,
            None => {
                proof {
                    if digits_value(digits, radix as int) is Some {
                        lemma_prefix_spells_less(digits, i + 1 - start, radix as int);
                    }
                }
                return None;
            },
        };
        proof {
            assert(digits_value(more, radix as int) == Some(value * radix + d));
            assert((value as u128) * (radix as u128) <= 0xFFFF_FFFF_FFFF_FFFF * 16) by (nonlinear_arith)
                requires
                    value <= 0xFFFF_FFFF_FFFF_FFFF,
                    radix <= 16,
            ;
        }
        let next: u128 = (value as u128) * (radix as u128) + (d as u128);
        if next > max as u128 {
            proof {
                if digits_value(digits, radix as int) is Some {
                    lemma_prefix_spells_less(digits, i + 1 - start, radix as int);
                }
            }
            return None;
        }
        value = next as u64;
        i = i + 1;
    }
    assert(digits.subrange(0, len - start) =~= digits);
    Some(value)
}

/// Whether two strings are the same.
pub fn same(a: &str, b: &str) -> (r: bool)
    ensures
        r == (a@ == b@),
{
    a.to_owned() == b.to_owned()
}

/// Whether `s` starts with `prefix`.
pub fn starts_with(s: &str, prefix: &str) -> (r: bool)
    ensures
        r == has_prefix(s@, prefix@),
{
    let n: usize = prefix.unicode_len();
    if s.unicode_len() < n {
        return false;
    }
    same(s.substring_char(0, n), prefix)
}

/// Whether `c` is white space.
fn space(c: char) -> (r: bool)
    ensures
        r == is_space(c),
{
    let v: u32 = c as u32;
    (9 <= v && v <= 13) || v == 32 || v == 0x85 || v == 0xA0 || v == 0x1680 || (0x2000 <= v && v
        <= 0x200A) || v == 0x2028 || v == 0x2029 || v == 0x202F || v == 0x205F || v == 0x3000
}

/// `s` without the white space around it.
pub fn trim(s: &str) -> (r: &str)
    ensures
        r@ == trimmed(s@),
{
    let len: usize = s.unicode_len();
    let mut start: usize = 0;
    assert(s@.subrange(0, len as int) =~= s@);
    while start < len && space(s.get_char(start))
        invariant
            start <= len,
            len == s@.len(),
            trim_front(s@) == trim_front(s@.subrange(start as int, len as int)),
        decreases len - start,
    {
        assert(s@.subrange(start as int, len as int).subrange(1, len - start) =~= s@.subrange(
            start + 1,
            len as int,
        ));
        start = start + 1;
    }
    assert(trim_front(s@) == s@.subrange(start as int, len as int));
    let mut end: usize = len;
    while start < end && space(s.get_char(end - 1))
        invariant
            start <= end <= len,
            len == s@.len(),
            trim_back(trim_front(s@)) == trim_back(s@.subrange(start as int, end as int)),
        decreases end,
    {
        assert(s@.subrange(start as int, end as int).drop_last() =~= s@.subrange(
            start as int,
            end - 1,
        ));
        end = end - 1;
    }
    s.substring_char(start, end)
}

/// The decimal digit of `d`.
fn digit_str(d: u32) -> (s: &'static str)
    requires
        d < 10,
    ensures
        s@ == seq![digit(d as int)],
{
    proof {
        reveal_strlit("0");
        reveal_strlit("1");
        reveal_strlit("2");
        reveal_strlit("3");
        reveal_strlit("4");
        reveal_strlit("5");
        reveal_strlit("6");
        reveal_strlit("7");
        reveal_strlit("8");
        reveal_strlit("9");
    }
    let s: &'static str = match d {
        0 => "0",
        1 => "1",
        2 => "2",
        3 => "3",
        4 => "4",
        5 => "5",
        6 => "6",
        7 => "7",
        8 => "8",
        _ => "9",
    };
    assert(s@ =~= seq![digit(d as int)]);
    s
}

/// `n` in decimal.
pub fn to_decimal(n: u32) -> (s: String)
    ensures
        s@ == decimal(n as nat),
    decreases n,
{
    let mut s: String = if n < 10 {
        String::new()
    } else {
        to_decimal(n / 10)
    };
    s.append(digit_str(n % 10));
    assert(s@ =~= decimal(n as nat));
    s
}

} // verus!

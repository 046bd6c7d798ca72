//! What the arguments of the command line stand for.

use vstd::prelude::*;

use crate::cli::{NotASize, NotAnAddress};

verus! {

/// A size is a number of bytes, or of kibibytes with a `k` behind it in
/// either case. The letter is no part of the number.
pub proof fn a_size_is_in_bytes_or_kibibytes(s: Seq<char>)
    requires
        s.len() > 0,
        !crate::text::is_space(s[0]),
        !crate::text::is_space(s.last()),
    ensures
        crate::cli::size_value(s.push('k')) == (match crate::text::number(s, 10) {
            Some(n) => Some(1024 * n),
            None => None,
        }),
        crate::cli::size_value(s.push('K')) == crate::cli::size_value(s.push('k')),
        s.last() != 'k' && s.last() != 'K' ==> crate::cli::size_value(s) == crate::text::number(
            s,
            10,
        ),
{
    let none = Seq::<char>::empty();
    crate::text::laws::trimming_takes_the_spaces_around(none, s, none);
    crate::text::laws::trimming_takes_the_spaces_around(none, s.push('k'), none);
    crate::text::laws::trimming_takes_the_spaces_around(none, s.push('K'), none);
    assert(none + s + none =~= s);
    assert(none + s.push('k') + none =~= s.push('k'));
    assert(none + s.push('K') + none =~= s.push('K'));
    assert(s.push('k').drop_last() =~= s);
    assert(s.push('K').drop_last() =~= s);
}

/// Spaces around a size or an address change nothing.
pub proof fn spaces_around_an_argument_do_not_count(
    front: Seq<char>,
    s: Seq<char>,
    back: Seq<char>,
)
    requires
        s.len() > 0,
        !crate::text::is_space(s[0]),
        !crate::text::is_space(s.last()),
        forall|i: int| 0 <= i < front.len() ==> crate::text::is_space(#[trigger] front[i]),
        forall|i: int| 0 <= i < back.len() ==> crate::text::is_space(#[trigger] back[i]),
    ensures
        crate::cli::size_value(front + s + back) == crate::cli::size_value(s),
        crate::cli::dec_or_hex(crate::text::trimmed(front + s + back)) == crate::cli::dec_or_hex(s),
{
    let none = Seq::<char>::empty();
    crate::text::laws::trimming_takes_the_spaces_around(front, s, back);
    crate::text::laws::trimming_takes_the_spaces_around(none, s, none);
    assert(none + s + none =~= s);
}

/// A number behind `0x`, in either case, is hexadecimal; any other is
/// decimal.
pub proof fn a_number_is_hexadecimal_behind_its_mark(t: Seq<char>)
    ensures
        crate::cli::dec_or_hex(seq!['0', 'x'] + t) == crate::text::number(t, 16),
        crate::cli::dec_or_hex(seq!['0', 'X'] + t) == crate::text::number(t, 16),
        !(t.len() >= 2 && t[0] == '0' && (t[1] == 'x' || t[1] == 'X')) ==> crate::cli::dec_or_hex(t)
            == crate::text::number(t, 10),
{
    let a = seq!['0', 'x'] + t;
    let b = seq!['0', 'X'] + t;
    assert(a.subrange(2, a.len() as int) =~= t);
    assert(b.subrange(2, b.len() as int) =~= t);
}

/// Every number can be given in decimal, as bytes, as kibibytes and as an
/// address.
pub proof fn every_number_can_be_spelled(n: nat)
    ensures
        crate::cli::size_value(crate::text::decimal(n)) == Some(n as int),
        crate::cli::size_value(crate::text::decimal(n).push('k')) == Some(1024 * n as int),
        crate::cli::dec_or_hex(crate::text::decimal(n)) == Some(n as int),
{
    let s = crate::text::decimal(n);
    crate::text::decimal_reads_back(n);
    crate::text::laws::a_decimal_has_no_leading_zero(n);
    lemma_digits_only(n);
    a_size_is_in_bytes_or_kibibytes(s);
    a_number_is_hexadecimal_behind_its_mark(s);
}

proof fn lemma_digits_only(n: nat)
    ensures
        crate::text::decimal(n).len() > 0,
        forall|i: int|
            0 <= i < crate::text::decimal(n).len() ==> 48 <= #[trigger] crate::text::decimal(n)[i]
                as int <= 57,
    decreases n,
{
    if n >= 10 {
        lemma_digits_only(n / 10);
    }
}

/// A size that fits is taken for what it spells, and nothing else is a size.
pub proof fn a_size_that_fits_is_taken(s: &str, r: Result<usize, NotASize>)
    requires
        call_ensures(crate::cli::parse_size, (s,), r),
    ensures
        r matches Ok(v) ==> crate::cli::size_value(s@) == Some(v as int),
        r is Ok <==> (crate::cli::size_value(s@) matches Some(v) && v <= usize::MAX),
{
}

/// An address that fits is taken for what it spells, and nothing else is one.
pub proof fn an_address_that_fits_is_taken(s: &str, r: Result<u64, NotAnAddress>)
    requires
        call_ensures(crate::cli::parse_addr, (s,), r),
    ensures
        r matches Ok(v) ==> crate::cli::dec_or_hex(crate::text::trimmed(s@)) == Some(v as int),
        r is Ok <==> (crate::cli::dec_or_hex(crate::text::trimmed(s@)) matches Some(v) && v
            <= u64::MAX),
{
}

/// A version is a number up to 65535, and no other text is one.
pub proof fn a_version_is_a_number_up_to_65535(raw: Seq<char>, v: u16)
    ensures
        crate::manifest_tool::version_value(raw) == Some(v) <==> crate::cli::dec_or_hex(raw)
            == Some(v as int),
        crate::manifest_tool::version_value(raw) is None <==> (
        crate::cli::dec_or_hex(raw) matches Some(n) ==> n > 65535),
{
    lemma_not_negative(raw);
}

proof fn lemma_not_negative(t: Seq<char>)
    ensures
        crate::cli::dec_or_hex(t) matches Some(n) ==> n >= 0,
{
    let digits = if crate::cli::is_hex(t) {
        crate::text::unsigned_part(t.subrange(2, t.len() as int))
    } else {
        crate::text::unsigned_part(t)
    };
    crate::text::lemma_digits_value_bounds(digits, 10);
    crate::text::lemma_digits_value_bounds(digits, 16);
}

} // verus!

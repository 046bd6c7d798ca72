//! How numbers are spelled.

use vstd::prelude::*;

verus! {

/// A digit is one of the first `radix` of `0` to `9` and `a` to `f`, in
/// either case, and stands for its place among them.
pub proof fn what_a_digit_is(c: char, radix: int, d: int)
    requires
        2 <= radix <= 16,
    ensures
        crate::text::digit_value(c, radix) == Some(d) <==> {
            &&& 0 <= d < radix
            &&& if d < 10 {
                c as int == 48 + d
            } else {
                c as int == 87 + d || c as int == 55 + d
            }
        },
{
}

/// A number grows by its last digit: the digits before it count `radix` times
/// as much, and one character that is no digit spoils it.
pub proof fn a_number_grows_by_its_last_digit(s: Seq<char>, c: char, radix: int)
    requires
        s.len() > 0,
        s != seq!['+'],
    ensures
        crate::text::number(s.push(c), radix) == (match (
            crate::text::number(s, radix),
            crate::text::digit_value(c, radix),
        ) {
            (Some(high), Some(low)) => Some(high * radix + low),
            _ => None,
        }),
{
    let t = s.push(c);
    let before = crate::text::unsigned_part(s);
    let after = crate::text::unsigned_part(t);
    assert(t[0] == s[0]);
    if s[0] == '+' && s.len() == 1 {
        assert(s =~= seq!['+']);
    }
    assert(after.drop_last() =~= before);
    assert(after.last() == c);
}

/// A number starts with one digit, which a single plus sign may stand in
/// front of; nothing and a bare sign are no numbers.
pub proof fn a_number_starts_with_a_digit(c: char, radix: int)
    requires
        2 <= radix <= 16,
    ensures
        crate::text::number(seq![c], radix) == crate::text::digit_value(c, radix),
        crate::text::number(seq!['+', c], radix) == crate::text::digit_value(c, radix),
        crate::text::number(seq!['+'], radix) is None,
        crate::text::number(Seq::<char>::empty(), radix) is None,
{
    let one = seq![c];
    let signed = seq!['+', c];
    assert(signed.subrange(1, 2) =~= one);
    assert(one.drop_last() =~= Seq::<char>::empty());
    assert(crate::text::digits_value(Seq::<char>::empty(), radix) == Some(0int));
    assert(0 * radix == 0) by (nonlinear_arith);
    assert(crate::text::digits_value(one, radix) == crate::text::digit_value(c, radix));
    assert(seq!['+'].subrange(1, 1) =~= Seq::<char>::empty());
}

/// Only a number up to the limit counts.
pub proof fn a_number_is_held_to_its_limit(s: Seq<char>, radix: int, max: int, v: int)
    ensures
        crate::text::number_up_to(s, radix, max) == Some(v) <==> crate::text::number(s, radix)
            == Some(v) && v <= max,
{
}

/// A number is written without leading zeros, in as many digits as it needs.
pub proof fn a_decimal_has_no_leading_zero(n: nat)
    ensures
        crate::text::decimal(n).len() == 1 <==> n < 10,
        crate::text::decimal(n)[0] == '0' ==> n == 0,
        crate::text::decimal(n).len() > 0,
        n >= 10 ==> crate::text::decimal(n).drop_last() == crate::text::decimal(n / 10),
        crate::text::decimal(n).last() as int == 48 + n % 10,
    decreases n,
{
    if n >= 10 {
        a_decimal_has_no_leading_zero(n / 10);
        assert(crate::text::decimal(n).drop_last() =~= crate::text::decimal(n / 10));
    }
}

/// Among the characters of ASCII the spaces are the blank and the five
/// control characters from tab to carriage return.
pub proof fn what_a_space_is(c: char)
    requires
        (c as int) < 128,
    ensures
        crate::text::is_space(c) <==> c as int == 32 || 9 <= c as int <= 13,
{
}

/// Trimming takes the spaces on both sides of what is in between, and nothing
/// of it.
pub proof fn trimming_takes_the_spaces_around(front: Seq<char>, core: Seq<char>, back: Seq<char>)
    requires
        forall|i: int| 0 <= i < front.len() ==> crate::text::is_space(#[trigger] front[i]),
        forall|i: int| 0 <= i < back.len() ==> crate::text::is_space(#[trigger] back[i]),
        core.len() > 0 ==> !crate::text::is_space(core[0]) && !crate::text::is_space(core.last()),
    ensures
        crate::text::trimmed(front + core + back) == core,
{
    lemma_trim_front(front, core, back);
    if core.len() > 0 {
        lemma_trim_back(core, back);
    } else {
        assert(core + back =~= back);
        lemma_all_space(back);
        lemma_all_space_front(back);
        assert(crate::text::trim_back(Seq::<char>::empty()) =~= core);
    }
}

proof fn lemma_trim_front(front: Seq<char>, core: Seq<char>, back: Seq<char>)
    requires
        forall|i: int| 0 <= i < front.len() ==> crate::text::is_space(#[trigger] front[i]),
    ensures
        crate::text::trim_front(front + core + back) == crate::text::trim_front(core + back),
    decreases front.len(),
{
    let s = front + core + back;
    if front.len() == 0 {
        assert(s =~= core + back);
    } else {
        let rest = front.subrange(1, front.len() as int);
        assert(s[0] == front[0]);
        assert(s.subrange(1, s.len() as int) =~= rest + core + back);
        lemma_trim_front(rest, core, back);
    }
}

proof fn lemma_trim_back(core: Seq<char>, back: Seq<char>)
    requires
        core.len() > 0,
        !crate::text::is_space(core.last()),
        forall|i: int| 0 <= i < back.len() ==> crate::text::is_space(#[trigger] back[i]),
    ensures
        crate::text::trim_back(core + back) == core,
    decreases back.len(),
{
    let s = core + back;
    if back.len() == 0 {
        assert(s =~= core);
    } else {
        assert(s.last() == back.last());
        assert(s.drop_last() =~= core + back.drop_last());
        lemma_trim_back(core, back.drop_last());
    }
}

proof fn lemma_all_space(s: Seq<char>)
    requires
        forall|i: int| 0 <= i < s.len() ==> crate::text::is_space(#[trigger] s[i]),
    ensures
        crate::text::trim_back(s) == Seq::<char>::empty(),
    decreases s.len(),
{
    if s.len() > 0 {
        lemma_all_space(s.drop_last());
    } else {
        assert(s =~= Seq::<char>::empty());
    }
}

proof fn lemma_all_space_front(s: Seq<char>)
    requires
        forall|i: int| 0 <= i < s.len() ==> crate::text::is_space(#[trigger] s[i]),
    ensures
        crate::text::trim_front(s) == Seq::<char>::empty(),
    decreases s.len(),
{
    if s.len() > 0 {
        lemma_all_space_front(s.subrange(1, s.len() as int));
    } else {
        assert(s =~= Seq::<char>::empty());
    }
}

/// A text starts with another exactly when something can be put behind that
/// other to make it.
pub proof fn a_prefix_is_completed_by_the_rest(s: Seq<char>, prefix: Seq<char>, rest: Seq<char>)
    ensures
        crate::text::has_prefix(prefix + rest, prefix),
        crate::text::has_prefix(s, prefix) ==> s == prefix + s.subrange(
            prefix.len() as int,
            s.len() as int,
        ),
{
    assert((prefix + rest).subrange(0, prefix.len() as int) =~= prefix);
    if crate::text::has_prefix(s, prefix) {
        assert(s =~= s.subrange(0, prefix.len() as int) + s.subrange(
            prefix.len() as int,
            s.len() as int,
        ));
    }
}

} // verus!

//! CRC-32/ISO-HDLC (zlib crc32), the convention the SAMD5x DSU computes.
//!
//! Parameters: width 32, poly 0x04C11DB7, init 0xFFFFFFFF, refin = true,
//! refout = true, xorout = 0xFFFFFFFF. Input and output are reflected, so
//! the register is shifted right and the bit-reversed polynomial 0xEDB88320
//! is used.
//!
//! [`checksum`] is the definition: one conditional shift per message bit.
//! [`crc32`] computes it a byte at a time through a lookup table, and
//! [`crate::persist::crc32`] computes it bit by bit; both are proved equal
//! to the definition, so a record sealed by one side validates on the other.

use vstd::prelude::*;

verus! {

/// The generator polynomial, bit-reversed.
pub const POLY_REFLECTED: u32 = 0xEDB8_8320;

/// The register before the first message bit.
pub const INIT: u32 = 0xFFFF_FFFF;

// ── Definition ──────────────────────────────────────────────────────────

/// One message bit, already folded into bit 0 of the register.
pub open spec fn step(c: u32) -> u32 {
    if c & 1 != 0 {
        (c >> 1) ^ POLY_REFLECTED
    } else {
        c >> 1
    }
}

/// Eight message bits, already folded into the low byte of the register.
pub open spec fn step8(c: u32) -> u32 {
    step(step(step(step(step(step(step(step(c))))))))
}

/// The register after one more message byte.
pub open spec fn absorb(c: u32, b: u8) -> u32 {
    step8(c ^ (b as u32))
}

/// The register after the message bytes `s`, starting from `c`.
pub open spec fn fold(c: u32, s: Seq<u8>) -> u32
    decreases s.len(),
{
    if s.len() == 0 {
        c
    } else {
        absorb(fold(c, s.drop_last()), s.last())
    }
}

/// The CRC-32 of `s`.
pub open spec fn checksum(s: Seq<u8>) -> u32 {
    fold(INIT, s) ^ 0xFFFF_FFFF
}

// ── Algebra of the register ─────────────────────────────────────────────

/// Two registers that step to the same value were equal: the polynomial has
/// its top bit set, so the bit shifted out can be read off the result.
proof fn lemma_step8_injective(a: u32, b: u32)
    requires
        step8(a) == step8(b),
    ensures
        a == b,
{
    assert(forall|x: u32, y: u32| #[trigger] step(x) == #[trigger] step(y) ==> x == y) by {
        assert forall|x: u32, y: u32| #[trigger] step(x) == #[trigger] step(y) implies x == y by {
            assert(step(x) == step(y) ==> x == y) by (bit_vector);
        }
    }
}

/// The byte-at-a-time identity the lookup table rests on.
proof fn lemma_step8_table(x: u32)
    ensures
        step8(x) == step8(x & 0xFF) ^ (x >> 8),
{
    assert(step8(x) == step8(x & 0xFF) ^ (x >> 8)) by (bit_vector);
}

/// A longer message continues from the register the shorter one left.
pub proof fn lemma_fold_append(c: u32, s: Seq<u8>, t: Seq<u8>)
    ensures
        fold(c, s + t) == fold(fold(c, s), t),
    decreases t.len(),
{
    if t.len() == 0 {
        assert(s + t =~= s);
    } else {
        assert((s + t).drop_last() =~= s + t.drop_last());
        lemma_fold_append(c, s, t.drop_last());
    }
}

/// The same message takes different registers to different registers.
proof fn lemma_fold_injective(a: u32, b: u32, s: Seq<u8>)
    requires
        a != b,
    ensures
        fold(a, s) != fold(b, s),
    decreases s.len(),
{
    if s.len() > 0 {
        lemma_fold_injective(a, b, s.drop_last());
        let x = fold(a, s.drop_last());
        let y = fold(b, s.drop_last());
        let m = s.last() as u32;
        if step8(x ^ m) == step8(y ^ m) {
            lemma_step8_injective(x ^ m, y ^ m);
            assert(x ^ m == y ^ m ==> x == y) by (bit_vector);
        }
    }
}

/// Message bits above the low byte pass through eight steps as a shift.
proof fn lemma_step8_split(a: u32, b: u32)
    requires
        b & 0xFF == 0,
    ensures
        step8(a ^ b) == step8(a) ^ (b >> 8),
{
    assert(step8(a ^ b) == step8(a) ^ (b >> 8)) by (bit_vector)
        requires
            b & 0xFF == 0,
    ;
}

/// The little-endian word of four message bytes.
pub open spec fn word_of(s: Seq<u8>) -> u32 {
    (s[0] as u32) | ((s[1] as u32) << 8) | ((s[2] as u32) << 16) | ((s[3] as u32) << 24)
}

/// Four message bytes act on the register as one 32-bit word.
proof fn lemma_fold_word(c: u32, s: Seq<u8>)
    requires
        s.len() == 4,
    ensures
        fold(c, s) == step8(step8(step8(step8(c ^ word_of(s))))),
{
    let b0 = s[0] as u32;
    let b1 = s[1] as u32;
    let b2 = s[2] as u32;
    let b3 = s[3] as u32;
    let w = word_of(s);
    assert(fold(c, s) == step8(step8(step8(step8(c ^ b0) ^ b1) ^ b2) ^ b3)) by {
        reveal_with_fuel(fold, 5);
        let s3 = s.drop_last();
        let s2 = s3.drop_last();
        let s1 = s2.drop_last();
        assert(s1.drop_last().len() == 0);
    }
    let x1 = c ^ b0;
    let x2 = x1 ^ (b1 << 8);
    let x3 = x2 ^ (b2 << 16);
    let x4 = x3 ^ (b3 << 24);
    assert(x4 == c ^ w && (b1 << 8) & 0xFF == 0 && (b2 << 16) & 0xFF == 0 && (b3 << 24) & 0xFF == 0
        && ((b1 << 8) >> 8) == b1 && ((b2 << 16) >> 8) == b2 << 8 && ((b3 << 24) >> 8) == b3 << 16
        && (b2 << 8) & 0xFF == 0 && ((b2 << 8) >> 8) == b2 && (b3 << 16) & 0xFF == 0
        && ((b3 << 16) >> 8) == b3 << 8 && (b3 << 8) & 0xFF == 0 && ((b3 << 8) >> 8) == b3) by (bit_vector)
        requires
            x1 == c ^ b0,
            x2 == x1 ^ (b1 << 8),
            x3 == x2 ^ (b2 << 16),
            x4 == x3 ^ (b3 << 24),
            w == b0 | (b1 << 8) | (b2 << 16) | (b3 << 24),
            b0 < 256,
            b1 < 256,
            b2 < 256,
            b3 < 256,
    ;
    lemma_step8_split(x1, b1 << 8);
    lemma_step8_split(x2, b2 << 16);
    lemma_step8_split(step8(x2), b2 << 8);
    lemma_step8_split(x3, b3 << 24);
    lemma_step8_split(step8(x3), b3 << 16);
    lemma_step8_split(step8(step8(x3)), b3 << 8);
}

// ── What the checksum detects ───────────────────────────────────────────

/// Damage confined to one byte always changes the checksum, whatever the
/// byte, wherever it sits and however long the message is.
pub proof fn one_byte_of_damage_is_detected(s: Seq<u8>, t: Seq<u8>, at: int)
    requires
        s.len() == t.len(),
        0 <= at < s.len(),
        s[at] != t[at],
        forall|i: int| 0 <= i < s.len() && i != at ==> s[i] == t[i],
    ensures
        checksum(s) != checksum(t),
{
    let head = s.subrange(0, at);
    let tail = s.subrange(at + 1, s.len() as int);
    assert(s =~= head.push(s[at]) + tail);
    assert(t =~= head.push(t[at]) + tail);
    let c = fold(INIT, head);
    assert(head.push(s[at]).drop_last() =~= head);
    assert(head.push(t[at]).drop_last() =~= head);
    let m = s[at] as u32;
    let n = t[at] as u32;
    if step8(c ^ m) == step8(c ^ n) {
        lemma_step8_injective(c ^ m, c ^ n);
        assert(c ^ m == c ^ n ==> m == n) by (bit_vector);
    }
    lemma_fold_append(INIT, head.push(s[at]), tail);
    lemma_fold_append(INIT, head.push(t[at]), tail);
    lemma_fold_injective(absorb(c, s[at]), absorb(c, t[at]), tail);
    lemma_complement(fold(INIT, s), fold(INIT, t));
}

/// Damage confined to four consecutive bytes, a 32-bit burst, always
/// changes the checksum.
pub proof fn one_word_of_damage_is_detected(s: Seq<u8>, t: Seq<u8>, at: int)
    requires
        s.len() == t.len(),
        0 <= at,
        at + 4 <= s.len(),
        s != t,
        forall|i: int| 0 <= i < s.len() && !(at <= i < at + 4) ==> s[i] == t[i],
    ensures
        checksum(s) != checksum(t),
{
    let head = s.subrange(0, at);
    let tail = s.subrange(at + 4, s.len() as int);
    let sw = s.subrange(at, at + 4);
    let tw = t.subrange(at, at + 4);
    assert(s =~= head + sw + tail);
    assert(t =~= head + tw + tail);
    let c = fold(INIT, head);
    let (v, w) = (word_of(sw), word_of(tw));
    let (v0, v1, v2, v3) = (sw[0], sw[1], sw[2], sw[3]);
    let (w0, w1, w2, w3) = (tw[0], tw[1], tw[2], tw[3]);
    if c ^ v == c ^ w {
        assert(v0 == w0 && v1 == w1 && v2 == w2 && v3 == w3) by (bit_vector)
            requires
                v == (v0 as u32) | ((v1 as u32) << 8) | ((v2 as u32) << 16) | ((v3 as u32) << 24),
                w == (w0 as u32) | ((w1 as u32) << 8) | ((w2 as u32) << 16) | ((w3 as u32) << 24),
                c ^ v == c ^ w,
        ;
        assert(sw =~= tw);
    }
    lemma_fold_word(c, sw);
    lemma_fold_word(c, tw);
    if fold(c, sw) == fold(c, tw) {
        let (a, b) = (c ^ v, c ^ w);
        lemma_step8_injective(step8(step8(step8(a))), step8(step8(step8(b))));
        lemma_step8_injective(step8(step8(a)), step8(step8(b)));
        lemma_step8_injective(step8(a), step8(b));
        lemma_step8_injective(a, b);
    }
    lemma_fold_append(INIT, head, sw);
    lemma_fold_append(INIT, head, tw);
    lemma_fold_append(INIT, head + sw, tail);
    lemma_fold_append(INIT, head + tw, tail);
    lemma_fold_injective(fold(c, sw), fold(c, tw), tail);
    lemma_complement(fold(INIT, s), fold(INIT, t));
}

proof fn lemma_complement(a: u32, b: u32)
    requires
        a != b,
    ensures
        a ^ 0xFFFF_FFFF != b ^ 0xFFFF_FFFF,
{
    assert(a ^ 0xFFFF_FFFF == b ^ 0xFFFF_FFFF ==> a == b) by (bit_vector);
}

// ── Table-driven computation ────────────────────────────────────────────

/// Byte-wise lookup table for the reflected polynomial.
fn table() -> (t: [u32; 256])
    ensures
        forall|n: int| 0 <= n < 256 ==> #[trigger] t@[n] == step8(n as u32),
{
    let mut t: [u32; 256] = [0u32; 256];
    let mut n: usize = 0;
    while n < 256
        invariant
            n <= 256,
            forall|m: int| 0 <= m < n ==> #[trigger] t@[m] == step8(m as u32),
        decreases 256 - n,
    {
        t[n] = shift_byte(n as u32);
        n = n + 1;
    }
    t
}

/// One register step.
fn shift_bit(c: u32) -> (r: u32)
    ensures
        r == step(c),
{
    if c & 1 != 0 {
        (c >> 1) ^ POLY_REFLECTED
    } else {
        c >> 1
    }
}

/// Eight register steps, with no table: what a byte-wise lookup stands for.
pub fn shift_byte(c: u32) -> (r: u32)
    ensures
        r == step8(c),
{
    let half: u32 = shift_bit(shift_bit(shift_bit(shift_bit(c))));
    shift_bit(shift_bit(shift_bit(shift_bit(half))))
}

/// Compute the CRC-32 of `data`.
pub fn crc32(data: &[u8]) -> (crc: u32)
    ensures
        crc == checksum(data@),
{
    let table: [u32; 256] = table();
    let mut crc: u32 = INIT;
    let mut i: usize = 0;
    while i < data.len()
        invariant
            i <= data@.len(),
            crc == fold(INIT, data@.subrange(0, i as int)),
            forall|n: int| 0 <= n < 256 ==> #[trigger] table@[n] == step8(n as u32),
        decreases data@.len() - i,
    {
        let b: u32 = data[i] as u32;
        let x: u32 = crc ^ b;
        proof {
            lemma_step8_table(x);
            assert(x & 0xFF < 256 && x >> 8 == crc >> 8) by (bit_vector)
                requires
                    x == crc ^ b,
                    b < 256,
            ;
            assert(data@.subrange(0, i + 1).drop_last() =~= data@.subrange(0, i as int));
        }
        crc = table[(x & 0xFF) as usize] ^ (crc >> 8);
        i = i + 1;
    }
    assert(data@.subrange(0, data@.len() as int) =~= data@);
    crc ^ 0xFFFF_FFFF
}

} // verus!

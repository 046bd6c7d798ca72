//! Little-endian fields inside byte buffers.
//!
//! The manifest, the boot record, the boot-info block and the user page are
//! all stored little-endian. The functions here move one field in or out of
//! a buffer; what they read and write is stated by [`le16`], [`le32`],
//! [`le64`] and their inverses.

use vstd::prelude::*;

verus! {

// ── Definition ──────────────────────────────────────────────────────────

/// The two bytes of `v`, least significant first.
pub open spec fn le16(v: u16) -> Seq<u8> {
    seq![(v & 0xFF) as u8, ((v >> 8) & 0xFF) as u8]
}

/// The four bytes of `v`, least significant first.
pub open spec fn le32(v: u32) -> Seq<u8> {
    seq![
        (v & 0xFF) as u8,
        ((v >> 8) & 0xFF) as u8,
        ((v >> 16) & 0xFF) as u8,
        ((v >> 24) & 0xFF) as u8,
    ]
}

/// The eight bytes of `v`, least significant first.
pub open spec fn le64(v: u64) -> Seq<u8> {
    le32((v & 0xFFFF_FFFF) as u32) + le32(((v >> 32) & 0xFFFF_FFFF) as u32)
}

/// The value of the two bytes of `s` starting at `at`.
pub open spec fn u16_at(s: Seq<u8>, at: int) -> u16 {
    (s[at] as u16) | ((s[at + 1] as u16) << 8)
}

/// The value of the four bytes of `s` starting at `at`.
pub open spec fn u32_at(s: Seq<u8>, at: int) -> u32 {
    (s[at] as u32) | ((s[at + 1] as u32) << 8) | ((s[at + 2] as u32) << 16) | ((s[at + 3] as u32)
        << 24)
}

/// The value of the eight bytes of `s` starting at `at`.
pub open spec fn u64_at(s: Seq<u8>, at: int) -> u64 {
    (u32_at(s, at) as u64) | ((u32_at(s, at + 4) as u64) << 32)
}

/// `s` with the bytes from `at` on replaced by `t`.
pub open spec fn splice(s: Seq<u8>, at: int, t: Seq<u8>) -> Seq<u8> {
    Seq::new(
        s.len(),
        |i: int|
            if at <= i < at + t.len() {
                t[i - at]
            } else {
                s[i]
            },
    )
}

// ── Round trips ─────────────────────────────────────────────────────────

/// A stored 16-bit field reads back as what was written.
pub proof fn u16_round_trips(v: u16, s: Seq<u8>, at: int)
    requires
        0 <= at,
        at + 2 <= s.len(),
        s.subrange(at, at + 2) == le16(v),
    ensures
        u16_at(s, at) == v,
{
    let t = s.subrange(at, at + 2);
    assert(s[at] == t[0] && s[at + 1] == t[1]);
    assert(((v & 0xFF) as u8 as u16) | ((((v >> 8) & 0xFF) as u8 as u16) << 8) == v) by (bit_vector);
}

/// A stored 32-bit field reads back as what was written.
pub proof fn u32_round_trips(v: u32, s: Seq<u8>, at: int)
    requires
        0 <= at,
        at + 4 <= s.len(),
        s.subrange(at, at + 4) == le32(v),
    ensures
        u32_at(s, at) == v,
{
    let t = s.subrange(at, at + 4);
    assert(s[at] == t[0] && s[at + 1] == t[1] && s[at + 2] == t[2] && s[at + 3] == t[3]);
    assert(((v & 0xFF) as u8 as u32) | ((((v >> 8) & 0xFF) as u8 as u32) << 8) | ((((v >> 16)
        & 0xFF) as u8 as u32) << 16) | ((((v >> 24) & 0xFF) as u8 as u32) << 24) == v)
        by (bit_vector);
}

/// The bytes of the word at `at` are the bytes that were there.
pub proof fn word_bytes_round_trip(s: Seq<u8>, at: int)
    requires
        0 <= at,
        at + 4 <= s.len(),
    ensures
        le32(u32_at(s, at)) == s.subrange(at, at + 4),
{
    let (a, b, c, d) = (s[at], s[at + 1], s[at + 2], s[at + 3]);
    let w = u32_at(s, at);
    assert((w & 0xFF) as u8 == a && ((w >> 8) & 0xFF) as u8 == b && ((w >> 16) & 0xFF) as u8 == c
        && ((w >> 24) & 0xFF) as u8 == d) by (bit_vector)
        requires
            w == (a as u32) | ((b as u32) << 8) | ((c as u32) << 16) | ((d as u32) << 24),
    ;
    assert(le32(w) =~= s.subrange(at, at + 4));
}

/// The bytes of the halfword at `at` are the bytes that were there.
pub proof fn half_bytes_round_trip(s: Seq<u8>, at: int)
    requires
        0 <= at,
        at + 2 <= s.len(),
    ensures
        le16(u16_at(s, at)) == s.subrange(at, at + 2),
        le16(u16_at(s, at))[0] == s[at],
        le16(u16_at(s, at))[1] == s[at + 1],
{
    let (a, b) = (s[at], s[at + 1]);
    let h = u16_at(s, at);
    assert((h & 0xFF) as u8 == a && ((h >> 8) & 0xFF) as u8 == b) by (bit_vector)
        requires
            h == (a as u16) | ((b as u16) << 8),
    ;
    assert(le16(h) =~= s.subrange(at, at + 2));
}

/// A field of a window of `s` is the field of `s` at the same place.
pub proof fn lemma_fields_of_a_window(s: Seq<u8>, begin: int, window: Seq<u8>, off: int)
    requires
        0 <= begin,
        begin + window.len() <= s.len(),
        s.subrange(begin, begin + window.len()) == window,
        0 <= off,
        off + 4 <= window.len(),
    ensures
        u32_at(s, begin + off) == u32_at(window, off),
        u16_at(s, begin + off) == u16_at(window, off),
{
    let t = s.subrange(begin, begin + window.len());
    assert(t[off] == s[begin + off]);
    assert(t[off + 1] == s[begin + off + 1]);
    assert(t[off + 2] == s[begin + off + 2]);
    assert(t[off + 3] == s[begin + off + 3]);
}

/// Masks and shifts read as arithmetic: the fields that registers, fuses and
/// records are made of are digits of the number they sit in.
pub proof fn fields_are_digits(b: u8, h: u16, w: u32)
    ensures
        b & 0b11 == b % 4,
        (b >> 0u8) & 0b11 == b % 4,
        (b >> 2u8) & 0b11 == (b / 4) % 4,
        b & 1 != 0 <==> b % 2 == 1,
        b & 2 != 0 <==> (b / 2) % 2 == 1,
        b & 4 != 0 <==> (b / 4) % 2 == 1,
        (h & 0xFF) as u8 == h % 256,
        ((h >> 8) & 0xFF) as u8 == h / 256,
        ((h >> 8) & 0xF) as u8 == (h / 256) % 16,
        h & 0x10 != 0 <==> (h / 16) % 2 == 1,
        h & 0x20 != 0 <==> (h / 32) % 2 == 1,
        (w & 0xFF) as u8 == w % 256,
        ((w >> 8) & 0xFF) as u8 == (w / 256) % 256,
        ((w >> 16) & 0xFF) as u8 == (w / 65536) % 256,
        ((w >> 24) & 0xFF) as u8 == w / 16777216,
        (w & 0xF) as u8 == w % 16,
        ((w >> 26) & 0xF) as u8 == (w / 67108864) % 16,
        (w >> 16) & 0x7 == (w / 65536) % 8,
        w & 0xFFFF == w % 65536,
{
    assert(b & 0b11 == b % 4 && (b >> 0u8) & 0b11 == b % 4 && (b >> 2u8) & 0b11 == (b / 4) % 4 && (b
        & 1 != 0 <==> b % 2 == 1) && (b & 2 != 0 <==> (b / 2) % 2 == 1) && (b & 4 != 0 <==> (b / 4)
        % 2 == 1) && (h & 0xFF) as u8 == h % 256 && ((h >> 8) & 0xFF) as u8 == h / 256 && ((h >> 8)
        & 0xF) as u8 == (h / 256) % 16 && (h & 0x10 != 0 <==> (h / 16) % 2 == 1) && (h & 0x20 != 0
        <==> (h / 32) % 2 == 1) && (w & 0xFF) as u8 == w % 256 && ((w >> 8) & 0xFF) as u8 == (w
        / 256) % 256 && ((w >> 16) & 0xFF) as u8 == (w / 65536) % 256 && ((w >> 24) & 0xFF) as u8
        == w / 16777216 && (w & 0xF) as u8 == w % 16 && ((w >> 26) & 0xF) as u8 == (w / 67108864)
        % 16 && (w >> 16) & 0x7 == (w / 65536) % 8 && w & 0xFFFF == w % 65536) by (bit_vector);
}

/// A field is stored with its low byte first: each byte weighs 256 times the
/// one before it.
pub proof fn fields_are_little_endian(s: Seq<u8>, at: int, h: u16, w: u32)
    ensures
        u16_at(s, at) == s[at] + 256 * s[at + 1],
        u32_at(s, at) == s[at] + 256 * s[at + 1] + 65536 * s[at + 2] + 16777216 * s[at + 3],
        u64_at(s, at) == u32_at(s, at) + 4294967296 * u32_at(s, at + 4),
        le16(h).len() == 2,
        le16(h)[0] == h % 256,
        le16(h)[1] == h / 256,
        le32(w).len() == 4,
        le32(w)[0] == w % 256,
        le32(w)[1] == (w / 256) % 256,
        le32(w)[2] == (w / 65536) % 256,
        le32(w)[3] == w / 16777216,
        le64(0) == Seq::new(8, |i: int| 0u8),
{
    fields_are_digits(0, h, w);
    fields_are_digits(0, 0, 0);
    let (a, b, c, d) = (s[at], s[at + 1], s[at + 2], s[at + 3]);
    let (lo, hi) = (u32_at(s, at), u32_at(s, at + 4));
    assert((a as u16) | ((b as u16) << 8) == a + 256 * b && (a as u32) | ((b as u32) << 8) | ((
    c as u32) << 16) | ((d as u32) << 24) == a + 256 * b + 65536 * c + 16777216 * d && (lo as u64)
        | ((hi as u64) << 32) == lo + 4294967296 * hi && (0u64 & 0xFFFF_FFFF) as u32 == 0 && ((0u64
        >> 32) & 0xFFFF_FFFF) as u32 == 0) by (bit_vector);
    assert(le64(0) =~= Seq::new(8, |i: int| 0u8));
}

// ── Words as bytes, through bytemuck ────────────────────────────────────

/// [`bytemuck::bytes_of`] on a word put in little-endian order first: the
/// bytes of the word as a little-endian part stores it.
///
/// Not proved: that reinterpreting a little-endian `u32` yields its four
/// bytes, least significant first.
#[verifier::external_body]
pub(crate) fn word_bytes(w: u32) -> (bytes: Vec<u8>)
    ensures
        bytes@ == le32(w),
{
    bytemuck::bytes_of(&w.to_le()).to_vec()
}

/// [`bytemuck::pod_read_unaligned`] of a word, taken from little-endian
/// order: the word a little-endian part reads at those four bytes. It panics
/// on any other number of bytes.
///
/// Not proved: that four bytes reinterpreted as a little-endian `u32` are
/// that word.
#[verifier::external_body]
pub(crate) fn read_word(bytes: &[u8]) -> (w: u32)
    requires
        bytes@.len() == 4,
    ensures
        w == u32_at(bytes@, 0),
{
    u32::from_le(bytemuck::pod_read_unaligned::<u32>(bytes))
}

// ── Fields ──────────────────────────────────────────────────────────────

/// Read the 32-bit field at `off`.
pub fn read_u32(buf: &[u8], off: usize) -> (v: u32)
    requires
        off + 4 <= buf@.len(),
    ensures
        v == u32_at(buf@, off as int),
{
    let len: usize = buf.len();
    assert(off + 4 <= len);
    let field: &[u8] = vstd::slice::slice_subrange(buf, off, off + 4);
    read_word(field)
}

/// Read the 16-bit field at `off`.
pub fn read_u16(buf: &[u8], off: usize) -> (v: u16)
    requires
        off + 2 <= buf@.len(),
    ensures
        v == u16_at(buf@, off as int),
{
    (buf[off] as u16) | ((buf[off + 1] as u16) << 8)
}

/// Read the 64-bit field at `off`.
pub fn read_u64(buf: &[u8], off: usize) -> (v: u64)
    requires
        off + 8 <= buf@.len(),
    ensures
        v == u64_at(buf@, off as int),
{
    let len: usize = buf.len();
    assert(off + 8 <= len);
    (read_u32(buf, off) as u64) | ((read_u32(buf, off + 4) as u64) << 32)
}

/// Overwrite the bytes at `off` with `field`.
pub fn write_bytes(buf: &mut [u8], off: usize, field: &[u8])
    requires
        off + field@.len() <= old(buf)@.len(),
    ensures
        final(buf)@ == splice(old(buf)@, off as int, field@),
{
    let ghost before = buf@;
    let len: usize = buf.len();
    let mut i: usize = 0;
    while i < field.len()
        invariant
            len == before.len(),
            i <= field@.len(),
            off + field@.len() <= before.len(),
            buf@ == splice(before, off as int, field@.subrange(0, i as int)),
        decreases field@.len() - i,
    {
        buf[off + i] = field[i];
        i = i + 1;
        assert(buf@ =~= splice(before, off as int, field@.subrange(0, i as int)));
    }
    assert(field@.subrange(0, field@.len() as int) =~= field@);
}

/// Write a 16-bit field at `off`.
pub fn write_u16(buf: &mut [u8], off: usize, v: u16)
    requires
        off + 2 <= old(buf)@.len(),
    ensures
        final(buf)@ == splice(old(buf)@, off as int, le16(v)),
{
    let lo: u8 = (v & 0xFF) as u8;
    let hi: u8 = ((v >> 8) & 0xFF) as u8;
    buf[off] = lo;
    buf[off + 1] = hi;
    assert(buf@ =~= splice(old(buf)@, off as int, le16(v)));
}

/// Write a 32-bit field at `off`.
pub fn write_u32(buf: &mut [u8], off: usize, v: u32)
    requires
        off + 4 <= old(buf)@.len(),
    ensures
        final(buf)@ == splice(old(buf)@, off as int, le32(v)),
{
    let field: Vec<u8> = word_bytes(v);
    write_bytes(buf, off, field.as_slice());
}

/// Write a 64-bit field at `off`.
pub fn write_u64(buf: &mut [u8], off: usize, v: u64)
    requires
        off + 8 <= old(buf)@.len(),
    ensures
        final(buf)@ == splice(old(buf)@, off as int, le64(v)),
{
    let len: usize = buf.len();
    assert(off + 8 <= len);
    write_u32(buf, off, (v & 0xFFFF_FFFF) as u32);
    write_u32(buf, off + 4, ((v >> 32) & 0xFFFF_FFFF) as u32);
    assert(buf@ =~= splice(old(buf)@, off as int, le64(v)));
}

} // verus!

//! Fixed-width integers in byte sequences: big-endian (network order) and
//! little-endian (the memory order of the records shared with userspace).

use vstd::prelude::*;

verus! {

/// Big-endian 16-bit value of `b[i..i + 2]`.
pub open spec fn be_u16(b: Seq<u8>, i: int) -> u16 {
    ((b[i] as u16) << 8u16) | (b[i + 1] as u16)
}

/// Big-endian 32-bit value of `b[i..i + 4]`.
pub open spec fn be_u32(b: Seq<u8>, i: int) -> u32 {
    ((b[i] as u32) << 24u32) | ((b[i + 1] as u32) << 16u32) | ((b[i + 2] as u32) << 8u32) | (b[i
        + 3] as u32)
}

/// Big-endian 64-bit value of `b[i..i + 8]`.
pub open spec fn be_u64(b: Seq<u8>, i: int) -> u64 {
    ((b[i] as u64) << 56u64) | ((b[i + 1] as u64) << 48u64) | ((b[i + 2] as u64) << 40u64) | ((b[i
        + 3] as u64) << 32u64) | ((b[i + 4] as u64) << 24u64) | ((b[i + 5] as u64) << 16u64) | ((b[i
        + 6] as u64) << 8u64) | (b[i + 7] as u64)
}

/// Little-endian 16-bit value of `b[i..i + 2]`.
pub open spec fn le_u16(b: Seq<u8>, i: int) -> u16 {
    (b[i] as u16) | ((b[i + 1] as u16) << 8u16)
}

/// Little-endian 32-bit value of `b[i..i + 4]`.
pub open spec fn le_u32(b: Seq<u8>, i: int) -> u32 {
    (b[i] as u32) | ((b[i + 1] as u32) << 8u32) | ((b[i + 2] as u32) << 16u32) | ((b[i
        + 3] as u32) << 24u32)
}

/// Little-endian 64-bit value of `b[i..i + 8]`.
pub open spec fn le_u64(b: Seq<u8>, i: int) -> u64 {
    (b[i] as u64) | ((b[i + 1] as u64) << 8u64) | ((b[i + 2] as u64) << 16u64) | ((b[i
        + 3] as u64) << 24u64) | ((b[i + 4] as u64) << 32u64) | ((b[i + 5] as u64) << 40u64) | ((b[i
        + 6] as u64) << 48u64) | ((b[i + 7] as u64) << 56u64)
}

/// The byte of `x` that starts at bit `shift`.
pub open spec fn byte_of(x: u64, shift: u64) -> u8 {
    ((x >> shift) & 0xffu64) as u8
}

/// Big-endian bytes of a 16-bit value.
pub open spec fn be_bytes_u16(x: u16) -> Seq<u8> {
    seq![byte_of(x as u64, 8u64), byte_of(x as u64, 0u64)]
}

/// Big-endian bytes of a 32-bit value.
pub open spec fn be_bytes_u32(x: u32) -> Seq<u8> {
    seq![byte_of(x as u64, 24u64), byte_of(x as u64, 16u64), byte_of(x as u64, 8u64), byte_of(x as u64, 0u64)]
}

/// Big-endian bytes of a 64-bit value.
pub open spec fn be_bytes_u64(x: u64) -> Seq<u8> {
    seq![
        byte_of(x, 56u64),
        byte_of(x, 48u64),
        byte_of(x, 40u64),
        byte_of(x, 32u64),
        byte_of(x, 24u64),
        byte_of(x, 16u64),
        byte_of(x, 8u64),
        byte_of(x, 0u64),
    ]
}

/// Little-endian bytes of a 16-bit value.
pub open spec fn le_bytes_u16(x: u16) -> Seq<u8> {
    seq![byte_of(x as u64, 0u64), byte_of(x as u64, 8u64)]
}

/// Little-endian bytes of a 32-bit value.
pub open spec fn le_bytes_u32(x: u32) -> Seq<u8> {
    seq![byte_of(x as u64, 0u64), byte_of(x as u64, 8u64), byte_of(x as u64, 16u64), byte_of(x as u64, 24u64)]
}

/// Little-endian bytes of a 64-bit value.
pub open spec fn le_bytes_u64(x: u64) -> Seq<u8> {
    seq![
        byte_of(x, 0u64),
        byte_of(x, 8u64),
        byte_of(x, 16u64),
        byte_of(x, 24u64),
        byte_of(x, 32u64),
        byte_of(x, 40u64),
        byte_of(x, 48u64),
        byte_of(x, 56u64),
    ]
}

/// Reading back the bytes written for an integer gives the integer.
pub proof fn lemma_be_u16_roundtrip(x: u16, b: Seq<u8>, i: int)
    requires
        0 <= i,
        i + 2 <= b.len(),
        b.subrange(i, i + 2) == be_bytes_u16(x),
    ensures
        be_u16(b, i) == x,
{
    assert(b[i] == b.subrange(i, i + 2)[0]);
    assert(b[i + 1] == b.subrange(i, i + 2)[1]);
    let b0 = b[i];
    let b1 = b[i + 1];
    let y = x as u64;
    assert(b0 == ((y >> 8u64) & 0xffu64) as u8 && b1 == ((y >> 0u64) & 0xffu64) as u8 && y
        < 0x10000 ==> ((b0 as u16) << 8u16) | (b1 as u16) == y as u16) by (bit_vector);
}

/// Reading back the bytes written for an integer gives the integer.
pub proof fn lemma_be_u32_roundtrip(x: u32, b: Seq<u8>, i: int)
    requires
        0 <= i,
        i + 4 <= b.len(),
        b.subrange(i, i + 4) == be_bytes_u32(x),
    ensures
        be_u32(b, i) == x,
{
    let s = b.subrange(i, i + 4);
    assert(b[i] == s[0] && b[i + 1] == s[1] && b[i + 2] == s[2] && b[i + 3] == s[3]);
    let (b0, b1, b2, b3) = (b[i], b[i + 1], b[i + 2], b[i + 3]);
    let y = x as u64;
    assert(b0 == ((y >> 24u64) & 0xffu64) as u8 && b1 == ((y >> 16u64) & 0xffu64) as u8 && b2 == ((y
        >> 8u64) & 0xffu64) as u8 && b3 == ((y >> 0u64) & 0xffu64) as u8 && y < 0x1_0000_0000
        ==> ((b0 as u32) << 24u32) | ((b1 as u32) << 16u32) | ((b2 as u32) << 8u32) | (b3 as u32)
        == y as u32) by (bit_vector);
}

/// Reading back the bytes written for an integer gives the integer.
pub proof fn lemma_be_u64_roundtrip(x: u64, b: Seq<u8>, i: int)
    requires
        0 <= i,
        i + 8 <= b.len(),
        b.subrange(i, i + 8) == be_bytes_u64(x),
    ensures
        be_u64(b, i) == x,
{
    let s = b.subrange(i, i + 8);
    assert(b[i] == s[0] && b[i + 1] == s[1] && b[i + 2] == s[2] && b[i + 3] == s[3]);
    assert(b[i + 4] == s[4] && b[i + 5] == s[5] && b[i + 6] == s[6] && b[i + 7] == s[7]);
    let (b0, b1, b2, b3) = (b[i], b[i + 1], b[i + 2], b[i + 3]);
    let (b4, b5, b6, b7) = (b[i + 4], b[i + 5], b[i + 6], b[i + 7]);
    assert(b0 == ((x >> 56u64) & 0xffu64) as u8 && b1 == ((x >> 48u64) & 0xffu64) as u8 && b2 == ((x
        >> 40u64) & 0xffu64) as u8 && b3 == ((x >> 32u64) & 0xffu64) as u8 && b4 == ((x >> 24u64)
        & 0xffu64) as u8 && b5 == ((x >> 16u64) & 0xffu64) as u8 && b6 == ((x >> 8u64) & 0xffu64) as u8
        && b7 == ((x >> 0u64) & 0xffu64) as u8 ==> ((b0 as u64) << 56u64) | ((b1 as u64) << 48u64) | ((
    b2 as u64) << 40u64) | ((b3 as u64) << 32u64) | ((b4 as u64) << 24u64) | ((b5 as u64)
        << 16u64) | ((b6 as u64) << 8u64) | (b7 as u64) == x) by (bit_vector);
}

/// Big-endian 16-bit read; the caller guarantees the two bytes are present.
pub fn read_be_u16(s: &[u8], i: usize) -> (r: u16)
    requires
        i + 2 <= s@.len(),
    ensures
        r == be_u16(s@, i as int),
{
    ((s[i] as u16) << 8u16) | (s[i + 1] as u16)
}

/// Big-endian 32-bit read; the caller guarantees the four bytes are present.
pub fn read_be_u32(s: &[u8], i: usize) -> (r: u32)
    requires
        i + 4 <= s@.len(),
    ensures
        r == be_u32(s@, i as int),
{
    ((s[i] as u32) << 24u32) | ((s[i + 1] as u32) << 16u32) | ((s[i + 2] as u32) << 8u32) | (s[i
        + 3] as u32)
}

/// Big-endian 64-bit read; the caller guarantees the eight bytes are present.
pub fn read_be_u64(s: &[u8], i: usize) -> (r: u64)
    requires
        i + 8 <= s@.len(),
    ensures
        r == be_u64(s@, i as int),
{
    ((s[i] as u64) << 56u64) | ((s[i + 1] as u64) << 48u64) | ((s[i + 2] as u64) << 40u64) | ((s[i
        + 3] as u64) << 32u64) | ((s[i + 4] as u64) << 24u64) | ((s[i + 5] as u64) << 16u64) | ((s[i
        + 6] as u64) << 8u64) | (s[i + 7] as u64)
}

/// Little-endian 16-bit read; the caller guarantees the two bytes are present.
pub fn read_le_u16(s: &[u8], i: usize) -> (r: u16)
    requires
        i + 2 <= s@.len(),
    ensures
        r == le_u16(s@, i as int),
{
    (s[i] as u16) | ((s[i + 1] as u16) << 8u16)
}

/// Little-endian 32-bit read; the caller guarantees the four bytes are present.
pub fn read_le_u32(s: &[u8], i: usize) -> (r: u32)
    requires
        i + 4 <= s@.len(),
    ensures
        r == le_u32(s@, i as int),
{
    (s[i] as u32) | ((s[i + 1] as u32) << 8u32) | ((s[i + 2] as u32) << 16u32) | ((s[i
        + 3] as u32) << 24u32)
}

/// Little-endian 64-bit read; the caller guarantees the eight bytes are present.
pub fn read_le_u64(s: &[u8], i: usize) -> (r: u64)
    requires
        i + 8 <= s@.len(),
    ensures
        r == le_u64(s@, i as int),
{
    (s[i] as u64) | ((s[i + 1] as u64) << 8u64) | ((s[i + 2] as u64) << 16u64) | ((s[i
        + 3] as u64) << 24u64) | ((s[i + 4] as u64) << 32u64) | ((s[i + 5] as u64) << 40u64) | ((s[i
        + 6] as u64) << 48u64) | ((s[i + 7] as u64) << 56u64)
}

/// Appends the bytes of `x` that start at the given bit offsets, in order.
fn push_byte_of(out: &mut Vec<u8>, x: u64, shift: u64)
    requires
        shift < 64,
    ensures
        final(out)@ == old(out)@.push(byte_of(x, shift)),
{
    out.push(((x >> shift) & 0xffu64) as u8);
}

/// Appends the big-endian bytes of a 16-bit value.
pub fn push_be_u16(out: &mut Vec<u8>, x: u16)
    ensures
        final(out)@ == old(out)@ + be_bytes_u16(x),
{
    push_byte_of(out, x as u64, 8);
    push_byte_of(out, x as u64, 0);
    assert(out@ =~= old(out)@ + be_bytes_u16(x));
}

/// Appends the big-endian bytes of a 32-bit value.
pub fn push_be_u32(out: &mut Vec<u8>, x: u32)
    ensures
        final(out)@ == old(out)@ + be_bytes_u32(x),
{
    push_byte_of(out, x as u64, 24);
    push_byte_of(out, x as u64, 16);
    push_byte_of(out, x as u64, 8);
    push_byte_of(out, x as u64, 0);
    assert(out@ =~= old(out)@ + be_bytes_u32(x));
}

/// Appends the big-endian bytes of a 64-bit value.
pub fn push_be_u64(out: &mut Vec<u8>, x: u64)
    ensures
        final(out)@ == old(out)@ + be_bytes_u64(x),
{
    push_byte_of(out, x, 56);
    push_byte_of(out, x, 48);
    push_byte_of(out, x, 40);
    push_byte_of(out, x, 32);
    push_byte_of(out, x, 24);
    push_byte_of(out, x, 16);
    push_byte_of(out, x, 8);
    push_byte_of(out, x, 0);
    assert(out@ =~= old(out)@ + be_bytes_u64(x));
}

/// Appends the little-endian bytes of a 16-bit value.
pub fn push_le_u16(out: &mut Vec<u8>, x: u16)
    ensures
        final(out)@ == old(out)@ + le_bytes_u16(x),
{
    push_byte_of(out, x as u64, 0);
    push_byte_of(out, x as u64, 8);
    assert(out@ =~= old(out)@ + le_bytes_u16(x));
}

/// Appends the little-endian bytes of a 32-bit value.
pub fn push_le_u32(out: &mut Vec<u8>, x: u32)
    ensures
        final(out)@ == old(out)@ + le_bytes_u32(x),
{
    push_byte_of(out, x as u64, 0);
    push_byte_of(out, x as u64, 8);
    push_byte_of(out, x as u64, 16);
    push_byte_of(out, x as u64, 24);
    assert(out@ =~= old(out)@ + le_bytes_u32(x));
}

/// Appends the little-endian bytes of a 64-bit value.
pub fn push_le_u64(out: &mut Vec<u8>, x: u64)
    ensures
        final(out)@ == old(out)@ + le_bytes_u64(x),
{
    push_byte_of(out, x, 0);
    push_byte_of(out, x, 8);
    push_byte_of(out, x, 16);
    push_byte_of(out, x, 24);
    push_byte_of(out, x, 32);
    push_byte_of(out, x, 40);
    push_byte_of(out, x, 48);
    push_byte_of(out, x, 56);
    assert(out@ =~= old(out)@ + le_bytes_u64(x));
}

/// Reading back the bytes written for an integer gives the integer.
pub proof fn lemma_le_u16_roundtrip(x: u16, b: Seq<u8>, i: int)
    requires
        0 <= i,
        i + 2 <= b.len(),
        b.subrange(i, i + 2) == le_bytes_u16(x),
    ensures
        le_u16(b, i) == x,
{
    let s = b.subrange(i, i + 2);
    assert(b[i] == s[0] && b[i + 1] == s[1]);
    let (b0, b1) = (b[i], b[i + 1]);
    let y = x as u64;
    assert(b0 == ((y >> 0u64) & 0xffu64) as u8 && b1 == ((y >> 8u64) & 0xffu64) as u8 && y < 0x10000
        ==> (b0 as u16) | ((b1 as u16) << 8u16) == y as u16) by (bit_vector);
}

/// Reading back the bytes written for an integer gives the integer.
pub proof fn lemma_le_u32_roundtrip(x: u32, b: Seq<u8>, i: int)
    requires
        0 <= i,
        i + 4 <= b.len(),
        b.subrange(i, i + 4) == le_bytes_u32(x),
    ensures
        le_u32(b, i) == x,
{
    let s = b.subrange(i, i + 4);
    assert(b[i] == s[0] && b[i + 1] == s[1] && b[i + 2] == s[2] && b[i + 3] == s[3]);
    let (b0, b1, b2, b3) = (b[i], b[i + 1], b[i + 2], b[i + 3]);
    let y = x as u64;
    assert(b0 == ((y >> 0u64) & 0xffu64) as u8 && b1 == ((y >> 8u64) & 0xffu64) as u8 && b2 == ((y
        >> 16u64) & 0xffu64) as u8 && b3 == ((y >> 24u64) & 0xffu64) as u8 && y < 0x1_0000_0000
        ==> (b0 as u32) | ((b1 as u32) << 8u32) | ((b2 as u32) << 16u32) | ((b3 as u32) << 24u32)
        == y as u32) by (bit_vector);
}

/// Reading back the bytes written for an integer gives the integer.
pub proof fn lemma_le_u64_roundtrip(x: u64, b: Seq<u8>, i: int)
    requires
        0 <= i,
        i + 8 <= b.len(),
        b.subrange(i, i + 8) == le_bytes_u64(x),
    ensures
        le_u64(b, i) == x,
{
    let s = b.subrange(i, i + 8);
    assert(b[i] == s[0] && b[i + 1] == s[1] && b[i + 2] == s[2] && b[i + 3] == s[3]);
    assert(b[i + 4] == s[4] && b[i + 5] == s[5] && b[i + 6] == s[6] && b[i + 7] == s[7]);
    let (b0, b1, b2, b3) = (b[i], b[i + 1], b[i + 2], b[i + 3]);
    let (b4, b5, b6, b7) = (b[i + 4], b[i + 5], b[i + 6], b[i + 7]);
    assert(b0 == ((x >> 0u64) & 0xffu64) as u8 && b1 == ((x >> 8u64) & 0xffu64) as u8 && b2 == ((x
        >> 16u64) & 0xffu64) as u8 && b3 == ((x >> 24u64) & 0xffu64) as u8 && b4 == ((x >> 32u64)
        & 0xffu64) as u8 && b5 == ((x >> 40u64) & 0xffu64) as u8 && b6 == ((x >> 48u64) & 0xffu64) as u8
        && b7 == ((x >> 56u64) & 0xffu64) as u8 ==> (b0 as u64) | ((b1 as u64) << 8u64) | ((b2 as u64)
        << 16u64) | ((b3 as u64) << 24u64) | ((b4 as u64) << 32u64) | ((b5 as u64) << 40u64) | ((b6
        as u64) << 48u64) | ((b7 as u64) << 56u64) == x) by (bit_vector);
}

/// A big-endian 16-bit field is worth its first byte times 256 plus its second.
pub proof fn law_be_u16_value(b: Seq<u8>, i: int)
    requires
        0 <= i,
        i + 2 <= b.len(),
    ensures
        be_u16(b, i) == b[i] * 256 + b[i + 1],
{
    let (b0, b1) = (b[i], b[i + 1]);
    assert(((b0 as u16) << 8u16) | (b1 as u16) == b0 * 256 + b1) by (bit_vector);
}

/// A big-endian 32-bit field is worth its bytes in base 256, first byte most
/// significant.
pub proof fn law_be_u32_value(b: Seq<u8>, i: int)
    requires
        0 <= i,
        i + 4 <= b.len(),
    ensures
        be_u32(b, i) == ((b[i] * 256 + b[i + 1]) * 256 + b[i + 2]) * 256 + b[i + 3],
{
    let (b0, b1, b2, b3) = (b[i], b[i + 1], b[i + 2], b[i + 3]);
    assert(((b0 as u32) << 24u32) | ((b1 as u32) << 16u32) | ((b2 as u32) << 8u32) | (b3 as u32)
        == ((b0 * 256 + b1) * 256 + b2) * 256 + b3) by (bit_vector);
}

/// A big-endian 64-bit field is worth its bytes in base 256, first byte most
/// significant.
pub proof fn law_be_u64_value(b: Seq<u8>, i: int)
    requires
        0 <= i,
        i + 8 <= b.len(),
    ensures
        be_u64(b, i) == ((((((b[i] * 256 + b[i + 1]) * 256 + b[i + 2]) * 256 + b[i + 3]) * 256
            + b[i + 4]) * 256 + b[i + 5]) * 256 + b[i + 6]) * 256 + b[i + 7],
{
    let (b0, b1, b2, b3) = (b[i], b[i + 1], b[i + 2], b[i + 3]);
    let (b4, b5, b6, b7) = (b[i + 4], b[i + 5], b[i + 6], b[i + 7]);
    assert(((b0 as u64) << 56u64) | ((b1 as u64) << 48u64) | ((b2 as u64) << 40u64) | ((b3 as u64)
        << 32u64) | ((b4 as u64) << 24u64) | ((b5 as u64) << 16u64) | ((b6 as u64) << 8u64) | (b7
        as u64) == ((((((b0 * 256 + b1) * 256 + b2) * 256 + b3) * 256 + b4) * 256 + b5) * 256 + b6)
        * 256 + b7) by (bit_vector);
}

/// A little-endian 16-bit field is worth its first byte plus its second times 256.
pub proof fn law_le_u16_value(b: Seq<u8>, i: int)
    requires
        0 <= i,
        i + 2 <= b.len(),
    ensures
        le_u16(b, i) == b[i] + b[i + 1] * 256,
{
    let (b0, b1) = (b[i], b[i + 1]);
    assert((b0 as u16) | ((b1 as u16) << 8u16) == b0 + b1 * 256) by (bit_vector);
}

/// A little-endian 32-bit field is worth its bytes in base 256, first byte
/// least significant.
pub proof fn law_le_u32_value(b: Seq<u8>, i: int)
    requires
        0 <= i,
        i + 4 <= b.len(),
    ensures
        le_u32(b, i) == b[i] + 256 * (b[i + 1] + 256 * (b[i + 2] + 256 * b[i + 3])),
{
    let (b0, b1, b2, b3) = (b[i], b[i + 1], b[i + 2], b[i + 3]);
    assert((b0 as u32) | ((b1 as u32) << 8u32) | ((b2 as u32) << 16u32) | ((b3 as u32) << 24u32)
        == b0 + 256 * (b1 + 256 * (b2 + 256 * b3))) by (bit_vector);
}

/// A little-endian 64-bit field is worth its bytes in base 256, first byte
/// least significant.
pub proof fn law_le_u64_value(b: Seq<u8>, i: int)
    requires
        0 <= i,
        i + 8 <= b.len(),
    ensures
        le_u64(b, i) == b[i] + 256 * (b[i + 1] + 256 * (b[i + 2] + 256 * (b[i + 3] + 256 * (b[i
            + 4] + 256 * (b[i + 5] + 256 * (b[i + 6] + 256 * b[i + 7])))))),
{
    let (b0, b1, b2, b3) = (b[i], b[i + 1], b[i + 2], b[i + 3]);
    let (b4, b5, b6, b7) = (b[i + 4], b[i + 5], b[i + 6], b[i + 7]);
    assert((b0 as u64) | ((b1 as u64) << 8u64) | ((b2 as u64) << 16u64) | ((b3 as u64) << 24u64)
        | ((b4 as u64) << 32u64) | ((b5 as u64) << 40u64) | ((b6 as u64) << 48u64) | ((b7 as u64)
        << 56u64) == b0 + 256 * (b1 + 256 * (b2 + 256 * (b3 + 256 * (b4 + 256 * (b5 + 256 * (b6
        + 256 * b7))))))) by (bit_vector);
}

} // verus!

//! CRC-32 (IEEE 802.3), the fingerprint that protects secrets and frames.

use vstd::prelude::*;

verus! {

/// One bit of the reflected CRC-32 division.
pub open spec fn crc_shift(crc: u32) -> u32 {
    if crc & 1u32 != 0 {
        (crc >> 1) ^ 0xEDB8_8320u32
    } else {
        crc >> 1
    }
}

/// The CRC register after one more byte.
pub open spec fn crc_update(crc: u32, byte: u8) -> u32 {
    crc_shift(
        crc_shift(
            crc_shift(crc_shift(crc_shift(crc_shift(crc_shift(crc_shift(crc ^ (byte as u32))))))),
        ),
    )
}

/// The CRC register after all of `data`, starting from all ones.
pub open spec fn crc_register(data: Seq<u8>) -> u32
    decreases data.len(),
{
    if data.len() == 0 {
        0xFFFF_FFFFu32
    } else {
        crc_update(crc_register(data.drop_last()), data.last())
    }
}

/// The CRC-32 of `data`.
pub open spec fn crc32(data: Seq<u8>) -> u32 {
    crc_register(data) ^ 0xFFFF_FFFFu32
}

/// Byte `i` of `word`, counted from the most significant.
pub open spec fn word_byte(word: u32, i: int) -> u8 {
    if i == 0 {
        ((word >> 24) & 0xffu32) as u8
    } else if i == 1 {
        ((word >> 16) & 0xffu32) as u8
    } else if i == 2 {
        ((word >> 8) & 0xffu32) as u8
    } else {
        (word & 0xffu32) as u8
    }
}

/// The number of bytes in a fingerprint.
pub const FINGERPRINT_LEN: usize = 4;

/// The fingerprint of `data`: its CRC-32, most significant byte first.
pub open spec fn fingerprint(data: Seq<u8>) -> Seq<u8> {
    Seq::new(4, |i: int| word_byte(crc32(data), i))
}

/// One bit of the division loses nothing: different registers stay
/// different.
proof fn lemma_shift_injective(a: u32, b: u32)
    by (bit_vector)
    requires
        crc_shift(a) == crc_shift(b),
    ensures
        a == b,
{
}

/// Mixing a byte into a register loses nothing of either.
proof fn lemma_mix_injective(r1: u32, b1: u8, r2: u32, b2: u8)
    by (bit_vector)
    requires
        r1 ^ (b1 as u32) == r2 ^ (b2 as u32),
    ensures
        r1 == r2 ==> b1 == b2,
        b1 == b2 ==> r1 == r2,
{
}

/// Words with the same four bytes are the same, and so are words with the
/// same complement.
proof fn lemma_word_bytes_injective(v: u32, w: u32)
    by (bit_vector)
    requires
        ((v >> 24) & 0xffu32) as u8 == ((w >> 24) & 0xffu32) as u8,
        ((v >> 16) & 0xffu32) as u8 == ((w >> 16) & 0xffu32) as u8,
        ((v >> 8) & 0xffu32) as u8 == ((w >> 8) & 0xffu32) as u8,
        (v & 0xffu32) as u8 == (w & 0xffu32) as u8,
    ensures
        v == w,
{
}

/// The complement loses nothing.
proof fn lemma_complement_injective(v: u32, w: u32)
    by (bit_vector)
    requires
        v ^ 0xFFFF_FFFFu32 == w ^ 0xFFFF_FFFFu32,
    ensures
        v == w,
{
}

/// A step of the register loses nothing: with the same byte, different
/// registers stay different; from the same register, different bytes lead
/// to different registers.
pub proof fn lemma_update_injective(r1: u32, b1: u8, r2: u32, b2: u8)
    requires
        crc_update(r1, b1) == crc_update(r2, b2),
    ensures
        r1 == r2 ==> b1 == b2,
        b1 == b2 ==> r1 == r2,
{
    let x0 = r1 ^ (b1 as u32);
    let x1 = crc_shift(x0);
    let x2 = crc_shift(x1);
    let x3 = crc_shift(x2);
    let x4 = crc_shift(x3);
    let x5 = crc_shift(x4);
    let x6 = crc_shift(x5);
    let x7 = crc_shift(x6);
    let y0 = r2 ^ (b2 as u32);
    let y1 = crc_shift(y0);
    let y2 = crc_shift(y1);
    let y3 = crc_shift(y2);
    let y4 = crc_shift(y3);
    let y5 = crc_shift(y4);
    let y6 = crc_shift(y5);
    let y7 = crc_shift(y6);
    lemma_shift_injective(x7, y7);
    lemma_shift_injective(x6, y6);
    lemma_shift_injective(x5, y5);
    lemma_shift_injective(x4, y4);
    lemma_shift_injective(x3, y3);
    lemma_shift_injective(x2, y2);
    lemma_shift_injective(x1, y1);
    lemma_shift_injective(x0, y0);
    lemma_mix_injective(r1, b1, r2, b2);
}

/// Data that differ in one byte leave different registers.
proof fn lemma_register_differs(d1: Seq<u8>, d2: Seq<u8>, p: int)
    requires
        d1.len() == d2.len(),
        0 <= p < d1.len(),
        d1[p] != d2[p],
        forall|i: int| 0 <= i < d1.len() && i != p ==> d1[i] == d2[i],
    ensures
        crc_register(d1) != crc_register(d2),
    decreases d1.len(),
{
    let r1 = d1.drop_last();
    let r2 = d2.drop_last();
    if p == d1.len() - 1 {
        assert(r1 =~= r2);
        if crc_register(d1) == crc_register(d2) {
            lemma_update_injective(crc_register(r1), d1.last(), crc_register(r2), d2.last());
        }
    } else {
        lemma_register_differs(r1, r2, p);
        if crc_register(d1) == crc_register(d2) {
            lemma_update_injective(crc_register(r1), d1.last(), crc_register(r2), d2.last());
        }
    }
}

/// The fingerprint notices every change of a single byte: data of the same
/// length that differ in exactly one byte have different fingerprints.
pub proof fn law_fingerprint_notices_a_changed_byte(d1: Seq<u8>, d2: Seq<u8>, p: int)
    requires
        d1.len() == d2.len(),
        0 <= p < d1.len(),
        d1[p] != d2[p],
        forall|i: int| 0 <= i < d1.len() && i != p ==> d1[i] == d2[i],
    ensures
        fingerprint(d1) != fingerprint(d2),
{
    lemma_register_differs(d1, d2, p);
    if fingerprint(d1) == fingerprint(d2) {
        let v = crc32(d1);
        let w = crc32(d2);
        assert(fingerprint(d1)[0] == word_byte(v, 0));
        assert(fingerprint(d1)[1] == word_byte(v, 1));
        assert(fingerprint(d1)[2] == word_byte(v, 2));
        assert(fingerprint(d1)[3] == word_byte(v, 3));
        assert(fingerprint(d2)[0] == word_byte(w, 0));
        assert(fingerprint(d2)[1] == word_byte(w, 1));
        assert(fingerprint(d2)[2] == word_byte(w, 2));
        assert(fingerprint(d2)[3] == word_byte(w, 3));
        lemma_word_bytes_injective(v, w);
        lemma_complement_injective(crc_register(d1), crc_register(d2));
    }
}

/// One bit of the division.
fn shift(crc: u32) -> (r: u32)
    ensures
        r == crc_shift(crc),
{
    if crc & 1u32 != 0 {
        (crc >> 1) ^ 0xEDB8_8320u32
    } else {
        crc >> 1
    }
}

/// The least significant byte of a word.
fn low_byte(word: u32) -> (b: u8)
    ensures
        b == (word & 0xffu32) as u8,
{
    let masked: u32 = word & 0xffu32;
    assert(masked < 0x100) by (bit_vector)
        requires
            masked == word & 0xffu32,
    ;
    masked as u8
}

/// Computes the CRC-32 of `data`.
pub fn compute_crc32(data: &Vec<u8>) -> (crc: u32)
    ensures
        crc == crc32(data@),
{
    let mut reg: u32 = 0xFFFF_FFFFu32;
    let mut i: usize = 0;
    while i < data.len()
        invariant
            i <= data.len(),
            reg == crc_register(data@.take(i as int)),
        decreases data.len() - i,
    {
        let byte: u8 = data[i];
        assert(data@.take(i + 1).drop_last() =~= data@.take(i as int));
        let mixed: u32 = reg ^ (byte as u32);
        reg = shift(shift(shift(shift(shift(shift(shift(shift(mixed))))))));
        i = i + 1;
    }
    assert(data@.take(i as int) =~= data@);
    reg ^ 0xFFFF_FFFFu32
}

/// Computes the fingerprint of `data`.
pub fn compute_fingerprint(data: &Vec<u8>) -> (f: Vec<u8>)
    ensures
        f@ == fingerprint(data@),
{
    let crc = compute_crc32(data);
    let mut f: Vec<u8> = Vec::new();
    f.push(low_byte(crc >> 24));
    f.push(low_byte(crc >> 16));
    f.push(low_byte(crc >> 8));
    f.push(low_byte(crc));
    assert(f@ =~= fingerprint(data@));
    f
}

} // verus!

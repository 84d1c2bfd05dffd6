//! How shares and payloads are written down: a share as bytes, and any
//! payload as a frame of lower-case hexadecimal text that ends in the
//! fingerprint of the payload.

use crate::recovery::bytes::{copy_range, same_bytes};
use crate::recovery::checksum::{
    compute_fingerprint, fingerprint, law_fingerprint_notices_a_changed_byte,
};
use crate::recovery::codec::{Share, ShareView};
use vstd::bytes::{
    lemma_auto_spec_u64_to_from_le_bytes, spec_u64_from_le_bytes, spec_u64_to_le_bytes,
    u64_from_le_bytes, u64_to_le_bytes,
};
use vstd::prelude::*;

verus! {

/// The character for a value below sixteen.
pub open spec fn hex_digit(v: u8) -> u8 {
    if v < 10 {
        (48 + v) as u8
    } else {
        (87 + v) as u8
    }
}

/// The value of a hexadecimal character: a digit or a lower-case letter up
/// to `f`.
pub open spec fn hex_value(c: u8) -> Option<u8> {
    if 48 <= c <= 57 {
        Some((c - 48) as u8)
    } else if 97 <= c <= 102 {
        Some((c - 87) as u8)
    } else {
        None
    }
}

/// The hexadecimal text of `bytes`, two characters for each byte.
pub open spec fn hex_encode(bytes: Seq<u8>) -> Seq<u8> {
    Seq::new(
        2 * bytes.len(),
        |i: int|
            if i % 2 == 0 {
                hex_digit(bytes[i / 2] / 16)
            } else {
                hex_digit(bytes[i / 2] % 16)
            },
    )
}

/// `text` is an even number of hexadecimal characters.
pub open spec fn is_hex(text: Seq<u8>) -> bool {
    &&& text.len() % 2 == 0
    &&& forall|i: int| 0 <= i < text.len() ==> hex_value(#[trigger] text[i]) is Some
}

/// The bytes that `text` stands for, if it is hexadecimal text.
pub open spec fn hex_decode(text: Seq<u8>) -> Option<Seq<u8>> {
    if is_hex(text) {
        Some(
            Seq::new(
                (text.len() / 2) as nat,
                |i: int|
                    (hex_value(text[2 * i]).unwrap() * 16 + hex_value(
                        text[2 * i + 1],
                    ).unwrap()) as u8,
            ),
        )
    } else {
        None
    }
}

/// Decoding undoes encoding.
pub proof fn law_hex_round_trip(bytes: Seq<u8>)
    ensures
        hex_decode(hex_encode(bytes)) == Some(bytes),
{
    let text = hex_encode(bytes);
    assert(is_hex(text));
    assert(hex_decode(text).unwrap() =~= bytes);
}

/// Hexadecimal text has one spelling: what decodes to `bytes` is the
/// encoding of `bytes`.
pub proof fn law_hex_canonical(text: Seq<u8>, bytes: Seq<u8>)
    requires
        hex_decode(text) == Some(bytes),
    ensures
        hex_encode(bytes) == text,
{
    assert forall|i: int| 0 <= i < text.len() implies hex_encode(bytes)[i] == text[i] by {
        let h = i / 2;
        assert(hex_value(text[2 * h]) is Some);
        assert(hex_value(text[2 * h + 1]) is Some);
    }
    assert(hex_encode(bytes) =~= text);
}

/// The character for a value below sixteen.
fn digit(v: u8) -> (c: u8)
    requires
        v < 16,
    ensures
        c == hex_digit(v),
{
    if v < 10 {
        48 + v
    } else {
        87 + v
    }
}

/// The value of a hexadecimal character.
fn value(c: u8) -> (v: Option<u8>)
    ensures
        v == hex_value(c),
        v matches Some(x) ==> x < 16,
{
    if 48 <= c && c <= 57 {
        Some(c - 48)
    } else if 97 <= c && c <= 102 {
        Some(c - 87)
    } else {
        None
    }
}

/// Writes `bytes` as hexadecimal text.
pub fn encode_hex(bytes: &Vec<u8>) -> (text: Vec<u8>)
    requires
        2 * bytes@.len() <= usize::MAX,
    ensures
        text@ == hex_encode(bytes@),
{
    let mut text: Vec<u8> = Vec::new();
    let mut i: usize = 0;
    while i < bytes.len()
        invariant
            i <= bytes.len(),
            2 * bytes@.len() <= usize::MAX,
            text@.len() == 2 * i,
            forall|j: int| 0 <= j < 2 * i ==> text@[j] == hex_encode(bytes@)[j],
        decreases bytes.len() - i,
    {
        let b = bytes[i];
        text.push(digit(b / 16));
        text.push(digit(b % 16));
        i = i + 1;
    }
    assert(text@ =~= hex_encode(bytes@));
    text
}

/// Reads hexadecimal text; `None` when `text` is not an even number of
/// digits and lower-case letters up to `f`.
pub fn decode_hex(text: &Vec<u8>) -> (bytes: Option<Vec<u8>>)
    ensures
        match bytes {
            Some(b) => hex_decode(text@) == Some(b@),
            None => hex_decode(text@) is None,
        },
{
    if text.len() % 2 != 0 {
        return None;
    }
    let half = text.len() / 2;
    let mut bytes: Vec<u8> = Vec::new();
    let mut i: usize = 0;
    while i < half
        invariant
            i <= half,
            half * 2 == text@.len(),
            text@.len() <= usize::MAX,
            bytes@.len() == i,
            forall|j: int| 0 <= j < 2 * i ==> hex_value(#[trigger] text@[j]) is Some,
            forall|j: int|
                0 <= j < i ==> bytes@[j] == (hex_value(text@[2 * j]).unwrap() * 16 + hex_value(
                    text@[2 * j + 1],
                ).unwrap()) as u8,
        decreases half - i,
    {
        let high = value(text[2 * i]);
        let low = value(text[2 * i + 1]);
        match (high, low) {
            (Some(h), Some(l)) => {
                bytes.push(h * 16 + l);
            },
            _ => {
                assert(!is_hex(text@));
                return None;
            },
        }
        i = i + 1;
    }
    assert(is_hex(text@));
    assert(bytes@ =~= hex_decode(text@).unwrap());
    Some(bytes)
}

/// The number of bytes before the payload of a written share.
pub const SHARE_HEADER_LEN: usize = 10;

/// A share as bytes: index, threshold, the mark of the split with the least
/// significant byte first, then the payload.
pub open spec fn share_bytes(share: ShareView) -> Seq<u8> {
    seq![share.index, share.threshold] + spec_u64_to_le_bytes(share.set_id) + share.payload
}

/// The share that `bytes` stand for, if they are long enough for one.
pub open spec fn share_of_bytes(bytes: Seq<u8>) -> Option<ShareView> {
    if bytes.len() < 10 {
        None
    } else {
        Some(
            ShareView {
                index: bytes[0],
                threshold: bytes[1],
                set_id: spec_u64_from_le_bytes(bytes.subrange(2, 10)),
                payload: bytes.subrange(10, bytes.len() as int),
            },
        )
    }
}

/// Reading undoes writing.
pub proof fn law_share_round_trip(share: ShareView)
    ensures
        share_of_bytes(share_bytes(share)) == Some(share),
{
    lemma_auto_spec_u64_to_from_le_bytes();
    let bytes = share_bytes(share);
    assert(spec_u64_to_le_bytes(share.set_id).len() == 8);
    assert(bytes.subrange(2, 10) =~= spec_u64_to_le_bytes(share.set_id));
    assert(bytes.subrange(10, bytes.len() as int) =~= share.payload);
}

/// A share has one spelling: what reads as `share` is what `share` is
/// written as.
pub proof fn law_share_canonical(bytes: Seq<u8>, share: ShareView)
    requires
        share_of_bytes(bytes) == Some(share),
    ensures
        share_bytes(share) == bytes,
{
    lemma_auto_spec_u64_to_from_le_bytes();
    assert(spec_u64_to_le_bytes(spec_u64_from_le_bytes(bytes.subrange(2, 10))) == bytes.subrange(
        2,
        10,
    ));
    assert(share_bytes(share) =~= bytes);
}

/// Writes a share as bytes.
pub fn encode_share(share: &Share) -> (bytes: Vec<u8>)
    requires
        share@.payload.len() + 10 <= usize::MAX,
    ensures
        bytes@ == share_bytes(share@),
{
    proof {
        lemma_auto_spec_u64_to_from_le_bytes();
    }
    let mark = u64_to_le_bytes(share.set_id);
    let mut bytes: Vec<u8> = Vec::new();
    bytes.push(share.index);
    bytes.push(share.threshold);
    let mut i: usize = 0;
    while i < 8
        invariant
            i <= 8,
            mark@.len() == 8,
            bytes@ == seq![share.index, share.threshold] + mark@.take(i as int),
        decreases 8 - i,
    {
        bytes.push(mark[i]);
        assert(bytes@ =~= seq![share.index, share.threshold] + mark@.take(i + 1));
        i = i + 1;
    }
    assert(mark@.take(8) =~= mark@);
    let mut j: usize = 0;
    while j < share.payload.len()
        invariant
            j <= share.payload.len(),
            share@.payload.len() + 10 <= usize::MAX,
            mark@.len() == 8,
            bytes@ == seq![share.index, share.threshold] + mark@ + share.payload@.take(j as int),
        decreases share.payload.len() - j,
    {
        bytes.push(share.payload[j]);
        assert(bytes@ =~= seq![share.index, share.threshold] + mark@ + share.payload@.take(j + 1));
        j = j + 1;
    }
    assert(share.payload@.take(j as int) =~= share.payload@);
    bytes
}

/// Reads a share from bytes; `None` when there are fewer than ten.
pub fn decode_share(bytes: &Vec<u8>) -> (share: Option<Share>)
    ensures
        match share {
            Some(s) => share_of_bytes(bytes@) == Some(s@),
            None => share_of_bytes(bytes@) is None,
        },
{
    if bytes.len() < 10 {
        return None;
    }
    let mark = copy_range(bytes, 2, 10);
    let set_id = u64_from_le_bytes(mark.as_slice());
    let payload = copy_range(bytes, 10, bytes.len());
    Some(Share { index: bytes[0], threshold: bytes[1], set_id, payload })
}

/// A payload as a frame: the hexadecimal text of the payload followed by
/// its fingerprint.
pub open spec fn frame_spec(payload: Seq<u8>) -> Seq<u8> {
    hex_encode(payload + fingerprint(payload))
}

/// The payload that the frame `text` holds, if `text` is hexadecimal text
/// that ends in the fingerprint of what comes before.
pub open spec fn unframe_spec(text: Seq<u8>) -> Option<Seq<u8>> {
    match hex_decode(text) {
        Some(raw) => {
            if raw.len() >= 4 && raw.subrange(raw.len() - 4, raw.len() as int) == fingerprint(
                raw.subrange(0, raw.len() - 4),
            ) {
                Some(raw.subrange(0, raw.len() - 4))
            } else {
                None
            }
        },
        None => None,
    }
}

/// Opening a frame gives back what was framed.
pub proof fn law_frame_round_trip(payload: Seq<u8>)
    ensures
        unframe_spec(frame_spec(payload)) == Some(payload),
{
    let raw = payload + fingerprint(payload);
    law_hex_round_trip(raw);
    assert(raw.subrange(0, raw.len() - 4) =~= payload);
    assert(raw.subrange(raw.len() - 4, raw.len() as int) =~= fingerprint(payload));
}

/// A frame has one spelling: what opens to `payload` is the frame of
/// `payload`.
pub proof fn law_frame_canonical(text: Seq<u8>, payload: Seq<u8>)
    requires
        unframe_spec(text) == Some(payload),
    ensures
        frame_spec(payload) == text,
{
    let raw = hex_decode(text).unwrap();
    law_hex_canonical(text, raw);
    assert(payload + fingerprint(payload) =~= raw);
}

/// Different hexadecimal characters have different values below sixteen.
proof fn lemma_hex_value_injective(a: u8, b: u8)
    requires
        hex_value(a) is Some,
        hex_value(b) is Some,
    ensures
        a != b ==> hex_value(a).unwrap() != hex_value(b).unwrap(),
        hex_value(a).unwrap() < 16,
        hex_value(b).unwrap() < 16,
{
}

/// Hexadecimal texts that differ in one character stand for bytes that
/// differ in one byte, the one that the character belongs to.
proof fn lemma_changed_character_changes_a_byte(first: Seq<u8>, second: Seq<u8>, place: int)
    requires
        is_hex(first),
        is_hex(second),
        first.len() == second.len(),
        0 <= place < first.len(),
        first[place] != second[place],
        forall|i: int| 0 <= i < first.len() && i != place ==> first[i] == second[i],
    ensures
        hex_decode(first).unwrap().len() == hex_decode(second).unwrap().len(),
        hex_decode(first).unwrap()[place / 2] != hex_decode(second).unwrap()[place / 2],
        forall|b: int|
            0 <= b < hex_decode(first).unwrap().len() && b != place / 2 ==> hex_decode(
                first,
            ).unwrap()[b] == hex_decode(second).unwrap()[b],
{
    let q = place / 2;
    let one = hex_decode(first).unwrap();
    let two = hex_decode(second).unwrap();
    assert forall|b: int| 0 <= b < one.len() && b != q implies one[b] == two[b] by {
        assert(first[2 * b] == second[2 * b]);
        assert(first[2 * b + 1] == second[2 * b + 1]);
    }
    assert(hex_value(first[2 * q]) is Some);
    assert(hex_value(first[2 * q + 1]) is Some);
    assert(hex_value(second[2 * q]) is Some);
    assert(hex_value(second[2 * q + 1]) is Some);
    lemma_hex_value_injective(first[2 * q], second[2 * q]);
    lemma_hex_value_injective(first[2 * q + 1], second[2 * q + 1]);
    if place == 2 * q {
        assert(first[2 * q + 1] == second[2 * q + 1]);
    } else {
        assert(place == 2 * q + 1);
        assert(first[2 * q] == second[2 * q]);
    }
}

/// Bytes that differ in one byte from a payload followed by its
/// fingerprint do not end in the fingerprint of what comes before.
proof fn lemma_changed_byte_breaks_the_frame(payload: Seq<u8>, found: Seq<u8>, q: int)
    requires
        found.len() == payload.len() + 4,
        0 <= q < found.len(),
        found[q] != (payload + fingerprint(payload))[q],
        forall|i: int|
            0 <= i < found.len() && i != q ==> found[i] == (payload + fingerprint(payload))[i],
    ensures
        found.subrange(found.len() - 4, found.len() as int) != fingerprint(
            found.subrange(0, found.len() - 4),
        ),
{
    let raw = payload + fingerprint(payload);
    let cut = payload.len() as int;
    let body = found.subrange(0, cut);
    let mark = found.subrange(cut, cut + 4);
    if q < cut {
        assert forall|i: int| 0 <= i < 4 implies mark[i] == fingerprint(payload)[i] by {
            assert(mark[i] == found[cut + i]);
            assert(raw[cut + i] == fingerprint(payload)[i]);
        }
        assert(mark =~= fingerprint(payload));
        assert(body[q] == found[q]);
        assert(payload[q] == raw[q]);
        assert forall|i: int| 0 <= i < body.len() && i != q implies body[i] == payload[i] by {
            assert(body[i] == found[i]);
            assert(payload[i] == raw[i]);
        }
        law_fingerprint_notices_a_changed_byte(body, payload, q);
    } else {
        assert forall|i: int| 0 <= i < cut implies body[i] == payload[i] by {
            assert(body[i] == found[i]);
            assert(raw[i] == payload[i]);
        }
        assert(body =~= payload);
        assert(mark[q - cut] == found[q]);
        assert(fingerprint(payload)[q - cut] == raw[q]);
    }
}

/// A frame with one character changed does not open: whatever the
/// character is changed to, the text is then no hexadecimal text, or what
/// it stands for does not end in the fingerprint of what comes before.
pub proof fn law_frame_notices_a_changed_character(
    payload: Seq<u8>,
    damaged: Seq<u8>,
    place: int,
)
    requires
        damaged.len() == frame_spec(payload).len(),
        0 <= place < damaged.len(),
        damaged[place] != frame_spec(payload)[place],
        forall|i: int|
            0 <= i < damaged.len() && i != place ==> damaged[i] == frame_spec(payload)[i],
    ensures
        unframe_spec(damaged) is None,
{
    let raw = payload + fingerprint(payload);
    let text = frame_spec(payload);
    law_hex_round_trip(raw);
    if is_hex(damaged) {
        assert(is_hex(text));
        lemma_changed_character_changes_a_byte(damaged, text, place);
        let found = hex_decode(damaged).unwrap();
        lemma_changed_byte_breaks_the_frame(payload, found, place / 2);
    }
}

/// Frames `payload`.
pub fn frame(payload: &Vec<u8>) -> (text: Vec<u8>)
    requires
        2 * (payload@.len() + 4) <= usize::MAX,
    ensures
        text@ == frame_spec(payload@),
{
    let mark = compute_fingerprint(payload);
    let mut raw = copy_range(payload, 0, payload.len());
    assert(payload@.subrange(0, payload@.len() as int) =~= payload@);
    let mut j: usize = 0;
    while j < 4
        invariant
            j <= 4,
            mark@.len() == 4,
            payload@.len() + 4 <= usize::MAX,
            raw@ == payload@ + mark@.take(j as int),
        decreases 4 - j,
    {
        raw.push(mark[j]);
        assert(raw@ =~= payload@ + mark@.take(j + 1));
        j = j + 1;
    }
    assert(mark@.take(4) =~= mark@);
    encode_hex(&raw)
}

/// Opens a frame; `None` when `text` is not hexadecimal text that ends in
/// the fingerprint of what comes before.
pub fn unframe(text: &Vec<u8>) -> (payload: Option<Vec<u8>>)
    ensures
        match payload {
            Some(p) => unframe_spec(text@) == Some(p@),
            None => unframe_spec(text@) is None,
        },
{
    match decode_hex(text) {
        None => None,
        Some(raw) => {
            if raw.len() < 4 {
                return None;
            }
            let cut = raw.len() - 4;
            let body = copy_range(&raw, 0, cut);
            let mark = copy_range(&raw, cut, raw.len());
            let expected = compute_fingerprint(&body);
            if same_bytes(&mark, &expected) {
                Some(body)
            } else {
                None
            }
        },
    }
}

} // verus!

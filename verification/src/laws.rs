//! Laws of the codec, proved once for all inputs: the encode/decode
//! round trip, overwrite behaviour of the header mapping, and the
//! decoder's rejection of short frames and of dishonest header lengths.

use vstd::prelude::*;
use vstd::utf8::{encode_utf8, is_ascii_chars};

use crate::message::Message;
use crate::text::valid_text;
use crate::wire::{
    before_nul, chars_of_bytes, decode_frame, encoded_frame, find_from, lemma_before_nul_take,
    lemma_find_from_skip, MIN_FRAME_LEN,
};

verus! {

/// Round trip at the byte level: a frame encoded from null-free header
/// bytes (of a length the two-byte field can hold) and arbitrary body
/// bytes decodes back to exactly those bytes, each read as a character.
pub proof fn lemma_frame_round_trip(header: Seq<u8>, body: Seq<u8>)
    requires
        forall|i: int| 0 <= i < header.len() ==> header[i] != 0,
        header.len() + 1 <= 0xFFFF,
    ensures
        decode_frame(encoded_frame(header, body)) == Some(
            (chars_of_bytes(header), chars_of_bytes(body)),
        ),
{
    let frame = encoded_frame(header, body);
    let h = header.len() as int;
    let b = body.len() as int;
    assert(frame.len() == h + b + 9);
    assert(frame[0] == 1);
    assert(frame[1] == 2);
    assert(frame[frame.len() - 1] == 4);
    vstd::arithmetic::div_mod::lemma_fundamental_div_mod(h + 1, 256);
    assert((h + 1) / 256 < 256);
    assert(frame[2] as int + 256 * (frame[3] as int) == h + 1);
    assert(4 + (h + 1) <= frame.len());
    assert(frame.subrange(4, 4 + (h + 1)) =~= header + seq![0u8]);
    assert forall|j: int| 0 <= j < h implies (header + seq![0u8])[j] != 0 by {
        assert((header + seq![0u8])[j] == header[j]);
    }
    lemma_before_nul_take(header + seq![0u8], h);
    assert(before_nul(header + seq![0u8]) =~= header);
    assert(frame[h + 5] == 3);
    assert(frame[h + 6] == 2);
    lemma_find_from_skip(frame, h + 5, h + 6, 2);
    assert(find_from(frame, h + 5, 2) == Some(h + 6));
    assert(h + 6 + 1 <= frame.len() - 2);
    assert(frame.subrange(h + 7, frame.len() - 2) =~= body);
}

/// The round trip of the codec: a message whose header and body are
/// ASCII, whose header has no null character, and whose header fits the
/// length field decodes back, unchanged, from its own encoding. The
/// messages `MessageBuilder::build` produces satisfy the text
/// hypotheses; a header longer than the length field admits does not
/// encode at all.
pub proof fn lemma_round_trip(m: Message)
    requires
        valid_text(m.header@),
        is_ascii_chars(m.body@),
        m.encodable(),
    ensures
        decode_frame(m.wire_bytes()) == Some((m.header@, m.body@)),
{
    vstd::utf8::is_ascii_chars_encode_utf8(m.header@);
    vstd::utf8::is_ascii_chars_encode_utf8(m.body@);
    let hb = encode_utf8(m.header@);
    let bb = encode_utf8(m.body@);
    assert forall|i: int| 0 <= i < hb.len() implies hb[i] != 0 by {
        assert(hb[i] == m.header@[i] as u8);
        assert((m.header@[i] as u32) < 128);
        assert(m.header@[i] as u32 != 0);
    }
    lemma_frame_round_trip(hb, bb);
    assert forall|i: int| 0 <= i < hb.len() implies #[trigger] chars_of_bytes(hb)[i]
        == m.header@[i] by {
        assert(hb[i] == m.header@[i] as u8);
        lemma_ascii_char_byte_char(m.header@[i]);
    }
    assert(chars_of_bytes(hb) =~= m.header@);
    assert forall|i: int| 0 <= i < bb.len() implies #[trigger] chars_of_bytes(bb)[i]
        == m.body@[i] by {
        assert(bb[i] == m.body@[i] as u8);
        lemma_ascii_char_byte_char(m.body@[i]);
    }
    assert(chars_of_bytes(bb) =~= m.body@);
}

/// An ASCII character survives the trip through its byte: casting it to
/// a byte and the byte back to a character returns it.
proof fn lemma_ascii_char_byte_char(c: char)
    requires
        c <= '\u{7f}',
    ensures
        (c as u8) as char == c,
{
    vstd::utf8::char_is_scalar(c);
    assert((c as u32) < 128);
    assert(c as u8 == c as u32);
    assert(((c as u8) as char) as u32 == c as u32);
    vstd::utf8::char_u32_cast(c, c as u32);
}

/// Adding a header twice under one key keeps only the second value:
/// the mapping holds exactly one entry for that key, the keys are
/// otherwise untouched, and the intermediate value is gone.
pub proof fn lemma_add_header_overwrite(
    m: Map<Seq<char>, Seq<char>>,
    k: Seq<char>,
    v1: Seq<char>,
    v2: Seq<char>,
)
    ensures
        m.insert(k, v1).insert(k, v2) == m.insert(k, v2),
        m.insert(k, v1).insert(k, v2)[k] == v2,
        m.insert(k, v1).insert(k, v2).dom() == m.dom().insert(k),
{
    assert(m.insert(k, v1).insert(k, v2) =~= m.insert(k, v2));
    assert(m.insert(k, v1).insert(k, v2).dom() =~= m.dom().insert(k));
}

/// A buffer shorter than the minimum frame length is always rejected.
pub proof fn lemma_short_frame_rejected(input: Seq<u8>)
    requires
        input.len() < MIN_FRAME_LEN,
    ensures
        decode_frame(input) is None,
{
}

/// Header length honesty: a frame whose declared header length points
/// past the end of the buffer is always rejected.
pub proof fn lemma_header_len_honest(input: Seq<u8>)
    requires
        input.len() >= MIN_FRAME_LEN,
        4 + (input[2] as int + 256 * (input[3] as int)) > input.len(),
    ensures
        decode_frame(input) is None,
{
}

} // verus!

//! The wire format: the exact byte layout of an encoded frame, and the
//! structural checks a decoder performs on an untrusted buffer.
//!
//! A frame is laid out as
//! `[0x01] [0x02] [header_len: u16 LE] [header bytes] [0x00] [0x03] [0x02]
//! [body bytes] [0x00] [0x04]`, where `header_len` is the byte length of
//! the header text plus one, counting the null terminator that follows it.

use vstd::prelude::*;

verus! {

/// Shortest buffer a decoder considers: the two start sentinels, the
/// two-byte header length field, and the end sentinel.
pub const MIN_FRAME_LEN: usize = 5;

/// The bytes of an encoded frame carrying the given header and body bytes.
///
/// The two bytes after the start sentinels are the little-endian encoding
/// of `header.len() + 1`; the `+ 1` counts the null terminator written
/// between the header bytes and the body marker.
pub open spec fn encoded_frame(header: Seq<u8>, body: Seq<u8>) -> Seq<u8> {
    seq![1u8, 2u8, ((header.len() + 1) % 256) as u8, (((header.len() + 1) / 256) % 256) as u8]
        + header + seq![0u8, 3u8, 2u8] + body + seq![0u8, 4u8]
}

/// The prefix of `b` before its first null byte (all of `b` if it has none).
pub open spec fn before_nul(b: Seq<u8>) -> Seq<u8>
    decreases b.len(),
{
    if b.len() == 0 {
        Seq::empty()
    } else if b[0] == 0 {
        Seq::empty()
    } else {
        seq![b[0]] + before_nul(b.drop_first())
    }
}

/// The least index at or after `from` where `v` occurs in `b`.
pub open spec fn find_from(b: Seq<u8>, from: int, v: u8) -> Option<int>
    decreases b.len() - from,
{
    if from < 0 || from >= b.len() {
        None
    } else if b[from] == v {
        Some(from)
    } else {
        find_from(b, from + 1, v)
    }
}

/// Each byte read as one character: the codec assumes single-byte text.
pub open spec fn chars_of_bytes(b: Seq<u8>) -> Seq<char> {
    Seq::new(b.len(), |i: int| b[i] as char)
}

/// What decoding recovers from an untrusted buffer: the header and body
/// text, or `None` as soon as any structural check fails.
///
/// The checks, in order: the buffer reaches the minimum frame length;
/// it starts with `0x01 0x02` and ends with `0x04`; the declared header
/// length does not point past the buffer; a `0x02` field marker exists at
/// or after the end of the header region; and the body region it opens
/// does not overrun the two trailing bytes. The header text stops at its
/// null terminator; the body is taken verbatim.
pub open spec fn decode_frame(input: Seq<u8>) -> Option<(Seq<char>, Seq<char>)> {
    if input.len() < MIN_FRAME_LEN {
        None
    } else if input[0] != 1 || input[1] != 2 || input[input.len() - 1] != 4 {
        None
    } else {
        let header_len = input[2] as int + 256 * (input[3] as int);
        if 4 + header_len > input.len() {
            None
        } else {
            let header_bytes = before_nul(input.subrange(4, 4 + header_len));
            match find_from(input, 4 + header_len, 2) {
                None => None,
                Some(p) => {
                    if p + 1 > input.len() - 2 {
                        None
                    } else {
                        Some(
                            (
                                chars_of_bytes(header_bytes),
                                chars_of_bytes(input.subrange(p + 1, input.len() - 2)),
                            ),
                        )
                    }
                },
            }
        }
    }
}

/// `before_nul` is the prefix up to the first null: if nothing before
/// index `k` is null, and `k` is the end or a null, the prefix is
/// exactly the first `k` bytes.
pub proof fn lemma_before_nul_take(b: Seq<u8>, k: int)
    requires
        0 <= k <= b.len(),
        forall|j: int| 0 <= j < k ==> b[j] != 0,
        k == b.len() || b[k] == 0,
    ensures
        before_nul(b) == b.take(k),
    decreases k,
{
    if k == 0 {
        assert(before_nul(b) =~= b.take(0));
    } else {
        assert(b[0] != 0);
        lemma_before_nul_take(b.drop_first(), k - 1);
        assert(seq![b[0]] + b.drop_first().take(k - 1) =~= b.take(k));
    }
}

/// Scanning may skip a region free of `v`: the first occurrence at or
/// after `from` is the first occurrence at or after `to`.
pub proof fn lemma_find_from_skip(b: Seq<u8>, from: int, to: int, v: u8)
    requires
        0 <= from <= to <= b.len(),
        forall|j: int| from <= j < to ==> b[j] != v,
    ensures
        find_from(b, from, v) == find_from(b, to, v),
    decreases to - from,
{
    if from < to {
        lemma_find_from_skip(b, from + 1, to, v);
    }
}

/// Splits a `u16` into two bytes, the low byte first (little-endian).
pub fn u16_to_u8s(input: u16) -> (r: [u8; 2])
    ensures
        r[0] == input % 256,
        r[1] == input / 256,
{
    proof {
        assert((input & (u8::MAX as u16)) == input % 256) by (bit_vector);
        assert(((input >> 8) & (u8::MAX as u16)) == input / 256) by (bit_vector);
        assert(input % 256 < 256);
        assert(input / 256 < 256);
    }
    [(input & (u8::MAX as u16)) as u8, ((input >> 8) & (u8::MAX as u16)) as u8]
}

} // verus!

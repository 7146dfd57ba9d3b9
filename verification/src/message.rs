//! The message itself: the immutable value a builder produces, its
//! encoding into a wire frame, and the defensive decoding of an
//! untrusted buffer back into a message.

use vstd::prelude::*;
use vstd::utf8::encode_utf8;

use crate::text::push_char;
use crate::wire::{
    before_nul, chars_of_bytes, decode_frame, encoded_frame, find_from, lemma_before_nul_take,
    lemma_find_from_skip, u16_to_u8s, MIN_FRAME_LEN,
};

verus! {

/// The immutable, validated in-memory message: a single concatenated
/// header string and a body string.
#[derive(Clone, Debug)]
pub struct Message {
    pub header: String,
    pub body: String,
}

impl PartialEq for Message {
    fn eq(&self, other: &Message) -> (r: bool) {
        self.header == other.header && self.body == other.body
    }
}

impl vstd::std_specs::cmp::PartialEqSpecImpl for Message {
    open spec fn obeys_eq_spec() -> bool {
        true
    }

    open spec fn eq_spec(&self, other: &Message) -> bool {
        self.header@ == other.header@ && self.body@ == other.body@
    }
}

impl Message {
    /// The frame this message encodes to: its header and body as UTF-8
    /// bytes, between the framing sentinels.
    pub open spec fn wire_bytes(self) -> Seq<u8> {
        encoded_frame(encode_utf8(self.header@), encode_utf8(self.body@))
    }

    /// Whether the header fits the two-byte length field of the wire
    /// format: its byte length plus one (for the null terminator that
    /// the field counts) must fit in a `u16`.
    pub open spec fn encodable(self) -> bool {
        encode_utf8(self.header@).len() + 1 <= 0xFFFF
    }

    /// Encodes the message into one framed byte buffer, or returns
    /// `None` when the header is too long for the length field.
    pub fn to_bytes(&self) -> (r: Option<Vec<u8>>)
        ensures
            r is Some <==> self.encodable(),
            r is Some ==> r->0@ == self.wire_bytes(),
    {
        let header_bytes: &[u8] = self.header.as_str().as_bytes();
        let body_bytes: &[u8] = self.body.as_str().as_bytes();
        let ghost hb = encode_utf8(self.header@);
        let ghost bb = encode_utf8(self.body@);
        if header_bytes.len() > 0xFFFE {
            return None;
        }
        let n: usize = header_bytes.len();
        let len_field = u16_to_u8s((n as u16) + 1);
        let ghost pre: Seq<u8> = seq![
            1u8,
            2u8,
            ((hb.len() + 1) % 256) as u8,
            (((hb.len() + 1) / 256) % 256) as u8,
        ];
        let mut out: Vec<u8> = Vec::new();
        out.push(1);
        out.push(2);
        out.push(len_field[0]);
        out.push(len_field[1]);
        assert(out@ =~= pre);
        let mut i: usize = 0;
        while i < n
            invariant
                0 <= i <= n,
                n == hb.len(),
                header_bytes@ == hb,
                out@ == pre + hb.take(i as int),
            decreases n - i,
        {
            out.push(header_bytes[i]);
            assert(out@ =~= pre + hb.take(i + 1));
            i += 1;
        }
        assert(hb.take(n as int) =~= hb);
        out.push(0);
        out.push(3);
        out.push(2);
        let ghost mid = pre + hb + seq![0u8, 3u8, 2u8];
        assert(out@ =~= mid);
        let m: usize = body_bytes.len();
        let mut j: usize = 0;
        while j < m
            invariant
                0 <= j <= m,
                m == bb.len(),
                body_bytes@ == bb,
                out@ == mid + bb.take(j as int),
            decreases m - j,
        {
            out.push(body_bytes[j]);
            assert(out@ =~= mid + bb.take(j + 1));
            j += 1;
        }
        assert(bb.take(m as int) =~= bb);
        out.push(0);
        out.push(4);
        assert(out@ =~= self.wire_bytes());
        Some(out)
    }

    /// Decodes an untrusted byte buffer into a message, or returns
    /// `None` when any structural check of the frame fails. Every
    /// length-derived offset is validated against the actual buffer, so
    /// decoding is total: no input makes it panic or read out of bounds.
    pub fn from_bytes(input: &[u8]) -> (r: Option<Message>)
        ensures
            r is Some <==> decode_frame(input@) is Some,
            r is Some ==> (r->0).header@ == (decode_frame(input@)->0).0,
            r is Some ==> (r->0).body@ == (decode_frame(input@)->0).1,
    {
        let n: usize = input.len();
        if n < MIN_FRAME_LEN {
            return None;
        }
        if input[0] != 1 || input[1] != 2 || input[n - 1] != 4 {
            return None;
        }
        let header_len: usize = input[2] as usize + 256 * (input[3] as usize);
        if header_len > n - 4 {
            return None;
        }
        let header_end: usize = 4 + header_len;
        let mut header = String::new();
        let mut i: usize = 4;
        while i < header_end && input[i] != 0
            invariant
                4 <= i <= header_end <= n,
                n == input@.len(),
                forall|j: int| 4 <= j < i ==> input@[j] != 0,
                header@ == chars_of_bytes(input@.subrange(4, i as int)),
            decreases header_end - i,
        {
            push_char(&mut header, input[i] as char);
            assert(header@ =~= chars_of_bytes(input@.subrange(4, i + 1)));
            i += 1;
        }
        proof {
            let hslice = input@.subrange(4, header_end as int);
            lemma_before_nul_take(hslice, i - 4);
            assert(hslice.take(i - 4) =~= input@.subrange(4, i as int));
            assert(header@ == chars_of_bytes(before_nul(hslice)));
        }
        let mut p: usize = header_end;
        while p < n && input[p] != 2
            invariant
                header_end <= p <= n,
                n == input@.len(),
                forall|j: int| header_end <= j < p ==> input@[j] != 2,
            decreases n - p,
        {
            p += 1;
        }
        proof {
            lemma_find_from_skip(input@, header_end as int, p as int, 2);
        }
        if p == n {
            assert(find_from(input@, header_end as int, 2) is None);
            return None;
        }
        assert(find_from(input@, header_end as int, 2) == Some(p as int));
        if p + 1 > n - 2 {
            return None;
        }
        let end: usize = n - 2;
        let mut body = String::new();
        let mut q: usize = p + 1;
        while q < end
            invariant
                p + 1 <= q <= end,
                end == n - 2,
                n == input@.len(),
                body@ == chars_of_bytes(input@.subrange(p + 1, q as int)),
            decreases end - q,
        {
            push_char(&mut body, input[q] as char);
            assert(body@ =~= chars_of_bytes(input@.subrange(p + 1, q + 1)));
            q += 1;
        }
        Some(Message { header, body })
    }
}

} // verus!

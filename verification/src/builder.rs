//! The message builder: accumulates header key/value pairs and an
//! optional body, then produces a validated [`Message`] — or fails if
//! any accumulated text cannot be carried by the codec.

use vstd::prelude::*;

use crate::headers::{header_entries, header_map_insert, header_map_new, header_map_pairs, HeaderMap};
use crate::message::Message;
use crate::text::{check_valid_text, lemma_valid_text_concat, valid_text};

verus! {

/// One header entry as text: `"key: value"`.
pub open spec fn header_line(k: Seq<char>, v: Seq<char>) -> Seq<char> {
    k + seq![':', ' '] + v
}

/// The concatenation of the given header entries, in order, with no
/// separator between consecutive entries beyond what each line holds.
pub open spec fn concat_header_lines(entries: Seq<(Seq<char>, Seq<char>)>) -> Seq<char>
    decreases entries.len(),
{
    if entries.len() == 0 {
        Seq::empty()
    } else {
        header_line(entries[0].0, entries[0].1) + concat_header_lines(entries.drop_first())
    }
}

/// Whether `entries` lists exactly the pairs of the mapping `m`: every
/// listed pair is in `m`, no key is listed twice, and every key of `m`
/// is listed. The order of the listing is left open.
pub open spec fn lists_entries_of(
    entries: Seq<(Seq<char>, Seq<char>)>,
    m: Map<Seq<char>, Seq<char>>,
) -> bool {
    &&& forall|i: int|
        0 <= i < entries.len() ==> m.contains_key(#[trigger] entries[i].0) && m[entries[i].0]
            == entries[i].1
    &&& forall|i: int, j: int|
        0 <= i < j < entries.len() ==> (#[trigger] entries[i].0) != (#[trigger] entries[j].0)
    &&& forall|k: Seq<char>|
        m.contains_key(k) ==> exists|i: int| 0 <= i < entries.len() && (#[trigger] entries[i].0) == k
}

/// Whether `h` is the header text of a message built from the mapping
/// `m`: the concatenation of `"key: value"` for every pair of `m`, each
/// exactly once, in some (unspecified) order.
pub open spec fn header_text_matches(h: Seq<char>, m: Map<Seq<char>, Seq<char>>) -> bool {
    exists|entries: Seq<(Seq<char>, Seq<char>)>|
        #[trigger] lists_entries_of(entries, m) && h == concat_header_lines(entries)
}

/// Whether every key and value of the mapping is text the codec can
/// carry.
pub open spec fn all_entries_valid(m: Map<Seq<char>, Seq<char>>) -> bool {
    forall|k: Seq<char>| #[trigger]
        m.contains_key(k) ==> valid_text(k) && valid_text(m[k])
}

/// Appending one entry to a listing appends its line to the
/// concatenation.
pub proof fn lemma_concat_header_lines_push(
    entries: Seq<(Seq<char>, Seq<char>)>,
    x: (Seq<char>, Seq<char>),
)
    ensures
        concat_header_lines(entries.push(x)) == concat_header_lines(entries) + header_line(
            x.0,
            x.1,
        ),
    decreases entries.len(),
{
    let line = header_line(x.0, x.1);
    if entries.len() == 0 {
        assert(entries.push(x)[0] == x);
        assert(entries.push(x).drop_first() =~= Seq::<(Seq<char>, Seq<char>)>::empty());
        assert(concat_header_lines(Seq::<(Seq<char>, Seq<char>)>::empty())
            == Seq::<char>::empty());
        assert(concat_header_lines(entries.push(x)) == line + Seq::<char>::empty());
        assert(line + Seq::<char>::empty() =~= line);
        assert(Seq::<char>::empty() + line =~= line);
    } else {
        lemma_concat_header_lines_push(entries.drop_first(), x);
        let e0 = entries[0];
        assert(entries.push(x)[0] == e0);
        assert(entries.push(x).drop_first() =~= entries.drop_first().push(x));
        assert(concat_header_lines(entries.push(x)) == header_line(e0.0, e0.1)
            + concat_header_lines(entries.drop_first().push(x)));
        assert(concat_header_lines(entries) == header_line(e0.0, e0.1) + concat_header_lines(
            entries.drop_first(),
        ));
        assert(concat_header_lines(entries.push(x)) == header_line(e0.0, e0.1)
            + (concat_header_lines(entries.drop_first()) + line));
        assert(header_line(e0.0, e0.1) + (concat_header_lines(entries.drop_first()) + line) =~= (
        header_line(e0.0, e0.1) + concat_header_lines(entries.drop_first())) + line);
    }
}

/// A line built from valid key and value text is itself valid text.
pub proof fn lemma_header_line_valid(k: Seq<char>, v: Seq<char>)
    requires
        valid_text(k),
        valid_text(v),
    ensures
        valid_text(header_line(k, v)),
{
    assert(valid_text(seq![':', ' ']));
    lemma_valid_text_concat(k, seq![':', ' ']);
    lemma_valid_text_concat(k + seq![':', ' '], v);
}

/// The mutable accumulator: a header mapping (keys unique, last write
/// wins, iteration order unspecified) and an optional body.
pub struct MessageBuilder {
    headers: HeaderMap,
    body: Option<String>,
}

impl MessageBuilder {
    /// The header mapping accumulated so far.
    pub closed spec fn headers_view(self) -> Map<Seq<char>, Seq<char>> {
        header_entries(self.headers)
    }

    /// The body set so far, if any.
    pub closed spec fn body_view(self) -> Option<Seq<char>> {
        match self.body {
            Some(b) => Some(b@),
            None => None,
        }
    }

    /// The body the built message will carry: an absent body normalizes
    /// to the empty string.
    pub open spec fn body_or_empty(self) -> Seq<char> {
        match self.body_view() {
            Some(b) => b,
            None => Seq::empty(),
        }
    }

    /// Whether everything accumulated is text the codec can carry; this
    /// is exactly the condition under which `build` succeeds.
    pub open spec fn valid(self) -> bool {
        &&& all_entries_valid(self.headers_view())
        &&& (self.body_view() matches Some(b) ==> valid_text(b))
    }

    /// Returns an empty builder: no headers, no body.
    pub fn new() -> (r: Self)
        ensures
            r.headers_view() == crate::headers::no_headers(),
            r.body_view() is None,
    {
        let headers = header_map_new();
        proof {
            assert(header_entries(headers) =~= crate::headers::no_headers());
        }
        MessageBuilder { headers, body: None }
    }

    /// Inserts or overwrites `key → value` in the header mapping; the
    /// last write for a key wins. Returns the builder for chaining; no
    /// text check happens here — invalid text is rejected by `build`.
    pub fn add_header(self, key: String, value: String) -> (r: Self)
        ensures
            r.headers_view() == self.headers_view().insert(key@, value@),
            r.body_view() == self.body_view(),
    {
        let MessageBuilder { mut headers, body } = self;
        header_map_insert(&mut headers, key, value);
        MessageBuilder { headers, body }
    }

    /// Sets or replaces the body. Returns the builder for chaining; no
    /// text check happens here — invalid text is rejected by `build`.
    pub fn set_body(self, body: String) -> (r: Self)
        ensures
            r.headers_view() == self.headers_view(),
            r.body_view() == Some(body@),
    {
        let MessageBuilder { headers, body: _ } = self;
        MessageBuilder { headers, body: Some(body) }
    }

    /// Consumes the builder and produces the validated message, whose
    /// header is the concatenation of `"key: value"` for every stored
    /// pair (in the mapping's unspecified iteration order) and whose
    /// body defaults to the empty string. Fails — returns `None` — if
    /// and only if some key, value, or the body is not text the codec
    /// can carry.
    pub fn build(self) -> (r: Option<Message>)
        ensures
            r is Some <==> self.valid(),
            r is Some ==> header_text_matches((r->0).header@, self.headers_view()),
            r is Some ==> (r->0).body@ == self.body_or_empty(),
            r is Some ==> valid_text((r->0).header@) && valid_text((r->0).body@),
    {
        let pairs = header_map_pairs(&self.headers);
        let ghost hmap = self.headers_view();
        let ghost entries = pairs@.map_values(|p: (String, String)| (p.0@, p.1@));
        let mut header = String::new();
        let mut idx: usize = 0;
        while idx < pairs.len()
            invariant
                0 <= idx <= pairs@.len(),
                hmap == self.headers_view(),
                entries == pairs@.map_values(|p: (String, String)| (p.0@, p.1@)),
                forall|i: int|
                    0 <= i < pairs@.len() ==> hmap.contains_key(#[trigger] pairs@[i].0@)
                        && hmap[pairs@[i].0@] == pairs@[i].1@,
                forall|i: int, j: int|
                    0 <= i < j < pairs@.len() ==> (#[trigger] pairs@[i].0@) != (#[trigger] pairs@[
                        j
                    ].0@),
                forall|k: Seq<char>|
                    hmap.contains_key(k) ==> exists|i: int|
                        0 <= i < pairs@.len() && (#[trigger] pairs@[i].0@) == k,
                forall|i: int|
                    0 <= i < idx ==> valid_text(#[trigger] pairs@[i].0@) && valid_text(
                        pairs@[i].1@,
                    ),
                header@ == concat_header_lines(entries.take(idx as int)),
                valid_text(header@),
            decreases pairs@.len() - idx,
        {
            let pair: &(String, String) = &pairs[idx];
            if !check_valid_text(pair.0.as_str()) || !check_valid_text(pair.1.as_str()) {
                proof {
                    assert(hmap.contains_key(pairs@[idx as int].0@));
                    assert(!(valid_text(pairs@[idx as int].0@) && valid_text(
                        pairs@[idx as int].1@,
                    )));
                    assert(!all_entries_valid(self.headers_view()));
                }
                return None;
            }
            header.append(pair.0.as_str());
            header.append(": ");
            header.append(pair.1.as_str());
            proof {
                reveal_strlit(": ");
                assert(": "@ =~= seq![':', ' ']);
                assert(*pair == pairs@[idx as int]);
                assert(valid_text(pairs@[idx as int].0@));
                assert(valid_text(pairs@[idx as int].1@));
                assert(entries[idx as int] == (pairs@[idx as int].0@, pairs@[idx as int].1@));
                assert(entries.take(idx + 1) =~= entries.take(idx as int).push(
                    entries[idx as int],
                ));
                lemma_concat_header_lines_push(entries.take(idx as int), entries[idx as int]);
                assert(header@ =~= concat_header_lines(entries.take(idx + 1)));
                lemma_header_line_valid(pairs@[idx as int].0@, pairs@[idx as int].1@);
                lemma_valid_text_concat(
                    concat_header_lines(entries.take(idx as int)),
                    header_line(entries[idx as int].0, entries[idx as int].1),
                );
                assert(forall|i: int|
                    0 <= i <= idx ==> valid_text(#[trigger] pairs@[i].0@) && valid_text(
                        pairs@[i].1@,
                    ));
            }
            idx += 1;
        }
        proof {
            assert(entries.take(pairs@.len() as int) =~= entries);
            assert(header@ == concat_header_lines(entries));
            assert forall|i: int| 0 <= i < entries.len() implies #[trigger] entries[i] == (
            pairs@[i].0@,
            pairs@[i].1@,
            ) by {}
            assert forall|k: Seq<char>| #[trigger]
                hmap.contains_key(k) implies valid_text(k) && valid_text(hmap[k]) by {
                let i = choose|i: int| 0 <= i < pairs@.len() && (#[trigger] pairs@[i].0@) == k;
                assert(valid_text(pairs@[i].0@) && valid_text(pairs@[i].1@));
                assert(hmap[pairs@[i].0@] == pairs@[i].1@);
            }
            assert(all_entries_valid(hmap));
            assert forall|i: int|
                0 <= i < entries.len() implies hmap.contains_key(#[trigger] entries[i].0)
                && hmap[entries[i].0] == entries[i].1 by {
                assert(entries[i] == (pairs@[i].0@, pairs@[i].1@));
            }
            assert forall|i: int, j: int|
                0 <= i < j < entries.len() implies (#[trigger] entries[i].0) != (
            #[trigger] entries[j].0) by {
                assert(entries[i] == (pairs@[i].0@, pairs@[i].1@));
                assert(entries[j] == (pairs@[j].0@, pairs@[j].1@));
            }
            assert forall|k: Seq<char>| hmap.contains_key(k) implies exists|i: int|
                0 <= i < entries.len() && (#[trigger] entries[i].0) == k by {
                let j = choose|j: int| 0 <= j < pairs@.len() && (#[trigger] pairs@[j].0@) == k;
                assert(entries[j] == (pairs@[j].0@, pairs@[j].1@));
                assert(entries[j].0 == k);
            }
            assert(lists_entries_of(entries, hmap));
            assert(header_text_matches(header@, hmap));
        }
        let message_body: String = match self.body {
            Some(b) => {
                if !check_valid_text(b.as_str()) {
                    return None;
                }
                b
            },
            None => String::new(),
        };
        Some(Message { header, body: message_body })
    }
}

impl Default for MessageBuilder {
    /// Same as `new`: an empty builder.
    fn default() -> (r: Self)
        ensures
            r.headers_view() == crate::headers::no_headers(),
            r.body_view() is None,
    {
        MessageBuilder::new()
    }
}

} // verus!

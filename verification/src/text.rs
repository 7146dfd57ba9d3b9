//! Text validity: the codec carries single-byte text, so a header key,
//! a header value and the body must be ASCII, and — since the wire format
//! null-terminates each field — must not contain a null character.

use vstd::prelude::*;
use vstd::string::StrSliceExecFns;
use vstd::utf8::is_ascii_chars;

verus! {

/// Text the codec can carry: ASCII characters, none of them null.
pub open spec fn valid_text(s: Seq<char>) -> bool {
    &&& is_ascii_chars(s)
    &&& forall|i: int| 0 <= i < s.len() ==> #[trigger] s[i] as u32 != 0
}

/// Valid text concatenates to valid text.
pub proof fn lemma_valid_text_concat(a: Seq<char>, b: Seq<char>)
    requires
        valid_text(a),
        valid_text(b),
    ensures
        valid_text(a + b),
{
    vstd::utf8::is_ascii_chars_concat(a + b, a, b);
    assert forall|i: int| 0 <= i < (a + b).len() implies #[trigger] (a + b)[i] as u32 != 0 by {
        if i < a.len() {
            assert((a + b)[i] == a[i]);
        } else {
            assert((a + b)[i] == b[i - a.len()]);
        }
    }
}

/// Relies on `String::push`: appends the character to the end of the
/// string.
#[verifier::external_body]
pub(crate) fn push_char(s: &mut String, c: char)
    ensures
        final(s)@ == old(s)@.push(c),
{
    s.push(c);
}

/// Decides `valid_text` for a string slice.
pub fn check_valid_text(s: &str) -> (b: bool)
    ensures
        b == valid_text(s@),
{
    if !s.is_ascii() {
        return false;
    }
    let n: usize = s.unicode_len();
    assert(n == s@.len());
    let mut i: usize = 0;
    while i < n
        invariant
            0 <= i <= n,
            n == s@.len(),
            is_ascii_chars(s@),
            forall|j: int| 0 <= j < i ==> #[trigger] s@[j] as u32 != 0,
        decreases n - i,
    {
        if s.get_ascii(i) == 0 {
            assert(s@[i as int] as u8 == 0);
            assert((s@[i as int] as u32) < 128);
            assert(s@[i as int] as u32 == 0);
            return false;
        }
        assert(s@[i as int] as u8 != 0);
        assert((s@[i as int] as u32) < 128);
        assert(s@[i as int] as u32 != 0);
        i += 1;
    }
    true
}

} // verus!

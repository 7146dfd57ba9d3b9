//! The header mapping: key/value pairs with unique keys, last write wins,
//! iteration order unspecified. The mapping is kept in a `hashbrown`
//! hash map; everything the rest of the crate knows of it is stated over
//! [`header_entries`], the mathematical map of its contents.

use vstd::prelude::*;

verus! {

/// The empty header mapping.
pub open spec fn no_headers() -> Map<Seq<char>, Seq<char>> {
    Map::empty()
}

/// A mapping from header keys to header values, backed by a
/// `hashbrown::HashMap`. Opaque to the verifier: its contents are
/// reached only through [`header_entries`].
#[verifier::external_body]
pub struct HeaderMap {
    map: hashbrown::HashMap<String, String>,
}

/// The contents of a [`HeaderMap`], as a map over the texts of its keys
/// and values.
pub uninterp spec fn header_entries(m: HeaderMap) -> Map<Seq<char>, Seq<char>>;

/// Relies on `hashbrown::HashMap::new`: a newly created map is empty.
#[verifier::external_body]
pub(crate) fn header_map_new() -> (m: HeaderMap)
    ensures
        header_entries(m) == no_headers(),
{
    HeaderMap { map: hashbrown::HashMap::new() }
}

/// Relies on `hashbrown::HashMap::insert`: inserts the pair, replacing
/// the value if the key was already present.
#[verifier::external_body]
pub(crate) fn header_map_insert(m: &mut HeaderMap, key: String, value: String)
    ensures
        header_entries(*final(m)) == header_entries(*old(m)).insert(key@, value@),
{
    m.map.insert(key, value);
}

/// Relies on `hashbrown::HashMap::iter`: visits every key/value pair of
/// the map exactly once, in arbitrary order. Accordingly the contract
/// fixes the set of pairs handed out, but no order.
#[verifier::external_body]
pub(crate) fn header_map_pairs(m: &HeaderMap) -> (r: Vec<(String, String)>)
    ensures
        forall|i: int|
            0 <= i < r@.len() ==> header_entries(*m).contains_key(#[trigger] r@[i].0@)
                && header_entries(*m)[r@[i].0@] == r@[i].1@,
        forall|i: int, j: int| 0 <= i < j < r@.len() ==> r@[i].0@ != r@[j].0@,
        forall|k: Seq<char>|
            header_entries(*m).contains_key(k) ==> exists|i: int|
                0 <= i < r@.len() && #[trigger] r@[i].0@ == k,
{
    let mut out = Vec::new();
    for (k, v) in m.map.iter() {
        out.push((k.clone(), v.clone()));
    }
    out
}

} // verus!

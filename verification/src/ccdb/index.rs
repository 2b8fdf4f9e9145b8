//! The hash indices of the metadata cache.
//!
//! The cache keeps its records in vectors and finds them through maps from
//! a key to a place in a vector. A key is a number together with a text;
//! an index by number alone leaves the text empty, an index by text alone
//! leaves the number zero. The maps are `DashMap`s, and nothing of them is
//! verified here: the first three functions state what the `dashmap` crate
//! documents of the methods they call. All changes go through `&mut`, so a
//! map is never changed while it is read.

use vstd::prelude::*;
use dashmap::DashMap;

verus! {

/// `DashMap` of the dashmap crate. Nothing inside a map is visible here;
/// what a map holds is spoken of through [`index_entries`].
#[verifier::external_type_specification]
#[verifier::external_body]
#[verifier::reject_recursive_types(K)]
#[verifier::reject_recursive_types(V)]
#[verifier::reject_recursive_types(S)]
pub struct ExDashMap<K, V, S>(DashMap<K, V, S>);

/// An index: a map from keys to places.
pub type Index = DashMap<(i64, String), usize>;

/// The entries of an index. Two keys are the same where their numbers are
/// equal and their texts hold the same characters.
pub uninterp spec fn index_entries(m: DashMap<(i64, String), usize>) -> Map<(i64, Seq<char>), usize>;

/// `DashMap::new` creates a map without entries.
#[verifier::external_body]
pub(crate) fn index_new() -> (m: DashMap<(i64, String), usize>)
    ensures
        index_entries(m) == (Map::<(i64, Seq<char>), usize>::empty()),
{
    DashMap::new()
}

/// `DashMap::insert` puts the value under the key, in place of what the
/// key held, and leaves every other entry as it is.
#[verifier::external_body]
pub(crate) fn index_insert(m: &mut DashMap<(i64, String), usize>, id: i64, text: String, value: usize)
    ensures
        index_entries(*final(m)) == index_entries(*old(m)).insert((id, text@), value),
{
    m.insert((id, text), value);
}

/// `DashMap::get` finds the value under the key, if the key has one.
#[verifier::external_body]
pub(crate) fn index_get(m: &DashMap<(i64, String), usize>, id: i64, text: String) -> (r: Option<usize>)
    ensures
        r == (if index_entries(*m).contains_key((id, text@)) {
            Some(index_entries(*m)[(id, text@)])
        } else {
            None
        }),
{
    m.get(&(id, text)).map(|entry| *entry.value())
}

/// The key of an index by number.
pub open spec fn id_key(id: i64) -> (i64, Seq<char>) {
    (id, Seq::<char>::empty())
}

/// The key of an index by text.
pub open spec fn text_key(text: Seq<char>) -> (i64, Seq<char>) {
    (0i64, text)
}

/// Puts `value` under the number `id`.
pub(crate) fn put_id(m: &mut Index, id: i64, value: usize)
    ensures
        index_entries(*final(m)) == index_entries(*old(m)).insert(id_key(id), value),
{
    index_insert(m, id, String::new(), value);
}

/// The value under the number `id`.
pub(crate) fn get_id(m: &Index, id: i64) -> (r: Option<usize>)
    ensures
        r == (if index_entries(*m).contains_key(id_key(id)) {
            Some(index_entries(*m)[id_key(id)])
        } else {
            None
        }),
{
    index_get(m, id, String::new())
}

/// Puts `value` under the text `text`.
pub(crate) fn put_text(m: &mut Index, text: String, value: usize)
    ensures
        index_entries(*final(m)) == index_entries(*old(m)).insert(text_key(text@), value),
{
    index_insert(m, 0, text, value);
}

/// The value under the text `text`.
pub(crate) fn get_text(m: &Index, text: &str) -> (r: Option<usize>)
    ensures
        r == (if index_entries(*m).contains_key(text_key(text@)) {
            Some(index_entries(*m)[text_key(text@)])
        } else {
            None
        }),
{
    index_get(m, 0, text.to_owned())
}

} // verus!

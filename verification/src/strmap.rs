//! An insertion-ordered map from string keys to values.
//!
//! Object values and scope binding frames both need a mapping whose
//! iteration order is insertion order and whose keys are unique. The map is
//! indexmap's `IndexMap`, held in an opaque struct; its behaviour enters the
//! proofs only through the contracts of the small wrappers below, stated
//! over the map's entry sequence.

use vstd::prelude::*;
use crate::values::{Value, ValueV};

verus! {

/// An insertion-ordered map from `String` keys to `Value`s, backed by
/// indexmap's `IndexMap`. Opaque to the verifier; its contents are the
/// entry sequence `strmap_entries`.
#[verifier::external_body]
#[derive(Debug)]
pub struct StrMap {
    inner: indexmap::IndexMap<String, Value>,
}

/// The entries of `m`: key and value views, in insertion order.
pub uninterp spec fn strmap_entries(m: StrMap) -> Seq<(Seq<char>, ValueV)>;

/// Whether some entry carries the key `k`.
pub open spec fn entries_has_key(es: Seq<(Seq<char>, ValueV)>, k: Seq<char>) -> bool {
    exists|i: int| 0 <= i < es.len() && es[i].0 == k
}

/// The first index whose entry carries the key `k`.
pub open spec fn entries_index_of(es: Seq<(Seq<char>, ValueV)>, k: Seq<char>) -> int
    decreases es.len(),
{
    if es.len() == 0 {
        0
    } else if es[0].0 == k {
        0
    } else {
        1 + entries_index_of(es.skip(1), k)
    }
}

/// The value stored under the key `k`, if any: the value of the first entry
/// carrying `k`.
pub open spec fn entries_lookup(es: Seq<(Seq<char>, ValueV)>, k: Seq<char>) -> Option<ValueV>
    decreases es.len(),
{
    if es.len() == 0 {
        None
    } else if es[0].0 == k {
        Some(es[0].1)
    } else {
        entries_lookup(es.skip(1), k)
    }
}

/// The entry sequence after binding `k` to `v`: an existing key keeps its
/// position and gets the new value; a new key is appended at the end.
pub open spec fn entries_insert(
    es: Seq<(Seq<char>, ValueV)>,
    k: Seq<char>,
    v: ValueV,
) -> Seq<(Seq<char>, ValueV)> {
    if entries_has_key(es, k) {
        es.update(entries_index_of(es, k), (k, v))
    } else {
        es.push((k, v))
    }
}

/// Relies on indexmap's `IndexMap::new`: an empty map.
#[verifier::external_body]
pub fn strmap_new() -> (m: StrMap)
    ensures
        strmap_entries(m) == Seq::<(Seq<char>, ValueV)>::empty(),
{
    StrMap { inner: indexmap::IndexMap::new() }
}

/// Relies on indexmap's `IndexMap::insert`: an existing key keeps its place
/// in the order and its value is replaced; a new key is appended last.
#[verifier::external_body]
pub fn strmap_insert(m: &mut StrMap, k: String, v: Value)
    ensures
        strmap_entries(*final(m)) == entries_insert(strmap_entries(*old(m)), k@, v@),
{
    m.inner.insert(k, v);
}

/// Relies on indexmap's `IndexMap::get`: the value stored under the key, if
/// the key is present.
#[verifier::external_body]
pub fn strmap_get<'a>(m: &'a StrMap, k: &str) -> (r: Option<&'a Value>)
    ensures
        match r {
            Some(v) => entries_lookup(strmap_entries(*m), k@) == Some(v@),
            None => entries_lookup(strmap_entries(*m), k@) is None,
        },
{
    m.inner.get(k)
}

/// Relies on indexmap's `IndexMap::iter`: the entries in insertion order,
/// each cloned out into an owned pair.
#[verifier::external_body]
pub fn strmap_pairs(m: &StrMap) -> (r: Vec<(String, Value)>)
    ensures
        r@.len() == strmap_entries(*m).len(),
        forall|i: int|
            0 <= i < r@.len() ==> (r@[i].0@, r@[i].1@) == strmap_entries(*m)[i],
{
    m.inner.iter().map(|(k, v)| (k.clone(), v.clone())).collect()
}

} // verus!

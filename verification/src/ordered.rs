//! The boundary to the `indexmap` crate: the insertion-ordered maps that hold
//! the colours of a flavor and the flavors of a palette.

use vstd::prelude::*;
use indexmap::IndexMap;
use crate::models::{Color, Flavor};

verus! {

/// `indexmap::IndexMap`: a map that keeps its entries in insertion order.
#[verifier::external_type_specification]
#[verifier::external_body]
#[verifier::reject_recursive_types(K)]
#[verifier::reject_recursive_types(V)]
#[verifier::reject_recursive_types(S)]
pub struct ExIndexMap<K, V, S>(IndexMap<K, V, S>);

/// `Clone` of `IndexMap`; nothing is claimed of the copy.
pub assume_specification<K, V, S>[ <IndexMap<K, V, S> as Clone>::clone ](
    m: &IndexMap<K, V, S>,
) -> IndexMap<K, V, S> where K: Clone, S: Clone, V: Clone
;

/// The entries of a map of colours, in insertion order.
pub uninterp spec fn color_entries(m: IndexMap<String, Color>) -> Seq<(Seq<char>, Color)>;

/// The entries of a map of flavors, in insertion order.
pub uninterp spec fn flavor_entries(m: IndexMap<String, Flavor>) -> Seq<(Seq<char>, Flavor)>;

/// Whether some entry has the given key.
pub open spec fn has_key<V>(entries: Seq<(Seq<char>, V)>, key: Seq<char>) -> bool {
    exists|i: int| 0 <= i < entries.len() && (#[trigger] entries[i]).0 == key
}

/// What an insertion makes of the entries: the value under an existing key
/// is replaced in place, a new key is appended with its value.
pub open spec fn inserted<V>(
    before: Seq<(Seq<char>, V)>,
    after: Seq<(Seq<char>, V)>,
    key: Seq<char>,
    value: V,
) -> bool {
    if has_key(before, key) {
        &&& after.len() == before.len()
        &&& forall|i: int|
            0 <= i < before.len() ==> (#[trigger] after[i]) == if before[i].0 == key {
                (key, value)
            } else {
                before[i]
            }
    } else {
        after == before.push((key, value))
    }
}

/// What a lookup by key returns: the value of an entry with that key, or
/// nothing where no entry has it.
pub open spec fn looked_up<V>(entries: Seq<(Seq<char>, V)>, key: Seq<char>, r: Option<&V>) -> bool {
    match r {
        Some(v) => exists|i: int|
            0 <= i < entries.len() && (#[trigger] entries[i]).0 == key && entries[i].1 == *v,
        None => !has_key(entries, key),
    }
}

/// `IndexMap::new`: a map without entries.
#[verifier::external_body]
pub(crate) fn colors_new() -> (m: IndexMap<String, Color>)
    ensures
        color_entries(m) == Seq::<(Seq<char>, Color)>::empty(),
{
    IndexMap::new()
}

/// `IndexMap::insert`: replaces the value under an existing key in place,
/// or appends a new entry.
#[verifier::external_body]
pub(crate) fn colors_insert(m: &mut IndexMap<String, Color>, key: String, value: Color)
    ensures
        inserted(color_entries(*old(m)), color_entries(*final(m)), key@, value),
{
    m.insert(key, value);
}

/// `IndexMap::get`: the value stored under the key, if any.
#[verifier::external_body]
pub(crate) fn colors_get<'a>(m: &'a IndexMap<String, Color>, key: &str) -> (r: Option<&'a Color>)
    ensures
        looked_up(color_entries(*m), key@, r),
{
    m.get(key)
}

/// `IndexMap::get_index`: the entry at a position in insertion order.
#[verifier::external_body]
pub(crate) fn colors_get_index<'a>(m: &'a IndexMap<String, Color>, index: usize) -> (r: Option<
    (&'a String, &'a Color),
>)
    ensures
        r is Some <==> index < color_entries(*m).len(),
        r is Some ==> r->Some_0.0@ == color_entries(*m)[index as int].0 && *r->Some_0.1
            == color_entries(*m)[index as int].1,
{
    m.get_index(index)
}

/// `IndexMap::len`: the number of entries.
#[verifier::external_body]
pub(crate) fn colors_len(m: &IndexMap<String, Color>) -> (r: usize)
    ensures
        r == color_entries(*m).len(),
{
    m.len()
}

/// `IndexMap::new`: a map without entries.
#[verifier::external_body]
pub(crate) fn flavors_new() -> (m: IndexMap<String, Flavor>)
    ensures
        flavor_entries(m) == Seq::<(Seq<char>, Flavor)>::empty(),
{
    IndexMap::new()
}

/// `IndexMap::insert`: replaces the value under an existing key in place,
/// or appends a new entry.
#[verifier::external_body]
pub(crate) fn flavors_insert(m: &mut IndexMap<String, Flavor>, key: String, value: Flavor)
    ensures
        inserted(flavor_entries(*old(m)), flavor_entries(*final(m)), key@, value),
{
    m.insert(key, value);
}

/// `IndexMap::get`: the value stored under the key, if any.
#[verifier::external_body]
pub(crate) fn flavors_get<'a>(m: &'a IndexMap<String, Flavor>, key: &str) -> (r: Option<
    &'a Flavor,
>)
    ensures
        looked_up(flavor_entries(*m), key@, r),
{
    m.get(key)
}

/// `IndexMap::get_index`: the entry at a position in insertion order.
#[verifier::external_body]
pub(crate) fn flavors_get_index<'a>(m: &'a IndexMap<String, Flavor>, index: usize) -> (r: Option<
    (&'a String, &'a Flavor),
>)
    ensures
        r is Some <==> index < flavor_entries(*m).len(),
        r is Some ==> r->Some_0.0@ == flavor_entries(*m)[index as int].0 && *r->Some_0.1
            == flavor_entries(*m)[index as int].1,
{
    m.get_index(index)
}

/// `IndexMap::len`: the number of entries.
#[verifier::external_body]
pub(crate) fn flavors_len(m: &IndexMap<String, Flavor>) -> (r: usize)
    ensures
        r == flavor_entries(*m).len(),
{
    m.len()
}

} // verus!

//! Override values and the rule by which an override is merged into a base.

use vstd::prelude::*;

verus! {

/// A recursively defined configuration value. A number is held as its
/// decimal text; a mapping keeps its entries in order.
#[derive(Debug)]
pub enum OverrideValue {
    Null,
    Bool(bool),
    Number(String),
    Text(String),
    List(Vec<OverrideValue>),
    Mapping(Vec<(String, OverrideValue)>),
}

/// The mathematical content of an `OverrideValue`.
pub enum ValueView {
    Null,
    Bool(bool),
    Number(Seq<char>),
    Text(Seq<char>),
    List(Seq<ValueView>),
    Mapping(Seq<(Seq<char>, ValueView)>),
}

/// The position of the first entry with the given key, if there is one.
pub open spec fn key_position(entries: Seq<(Seq<char>, ValueView)>, key: Seq<char>) -> Option<int>
    decreases entries.len(),
{
    if entries.len() == 0 {
        None
    } else {
        match key_position(entries.drop_last(), key) {
            Some(i) => Some(i),
            None => if entries.last().0 == key {
                Some(entries.len() - 1)
            } else {
                None
            },
        }
    }
}

/// The result of merging `over` into `base`: two mappings are merged entry
/// by entry; in every other case the override replaces the base.
pub open spec fn merged(base: ValueView, over: ValueView) -> ValueView
    decreases over, 0nat,
{
    match (base, over) {
        (ValueView::Mapping(b), ValueView::Mapping(o)) => ValueView::Mapping(
            merged_entries(b, o, o.len()),
        ),
        _ => over,
    }
}

/// The entries of `base` after the first `n` entries of `over` were applied
/// in order: an entry whose key `base` already holds is merged into the
/// value under that key, in place; any other is appended.
pub open spec fn merged_entries(
    base: Seq<(Seq<char>, ValueView)>,
    over: Seq<(Seq<char>, ValueView)>,
    n: nat,
) -> Seq<(Seq<char>, ValueView)>
    decreases over, n,
{
    if n == 0 || n > over.len() {
        base
    } else {
        let before = merged_entries(base, over, (n - 1) as nat);
        let entry = over[n - 1];
        match key_position(before, entry.0) {
            Some(i) => before.update(i, (entry.0, merged(before[i].1, entry.1))),
            None => before.push(entry),
        }
    }
}

/// The content of a list of values.
pub open spec fn list_view(items: Seq<OverrideValue>) -> Seq<ValueView> {
    Seq::new(items.len(), |i: int| items[i].view())
}

/// The content of a list of keyed values.
pub open spec fn entries_view(entries: Seq<(String, OverrideValue)>) -> Seq<(Seq<char>, ValueView)> {
    Seq::new(entries.len(), |i: int| (entries[i].0@, entries[i].1.view()))
}

impl OverrideValue {
    /// The mathematical content of the value.
    pub open spec fn view(&self) -> ValueView
        decreases self,
    {
        match self {
            OverrideValue::Null => ValueView::Null,
            OverrideValue::Bool(b) => ValueView::Bool(*b),
            OverrideValue::Number(n) => ValueView::Number(n@),
            OverrideValue::Text(s) => ValueView::Text(s@),
            OverrideValue::List(items) => ValueView::List(
                Seq::new(
                    items@.len(),
                    |i: int|
                        if 0 <= i < items@.len() {
                            items@[i].view()
                        } else {
                            ValueView::Null
                        },
                ),
            ),
            OverrideValue::Mapping(entries) => ValueView::Mapping(
                Seq::new(
                    entries@.len(),
                    |i: int|
                        if 0 <= i < entries@.len() {
                            (entries@[i].0@, entries@[i].1.view())
                        } else {
                            (Seq::empty(), ValueView::Null)
                        },
                ),
            ),
        }
    }
}

/// A mapping's content is the content of its entries, in order.
pub proof fn lemma_mapping_view(entries: Vec<(String, OverrideValue)>)
    ensures
        OverrideValue::Mapping(entries).view() == ValueView::Mapping(entries_view(entries@)),
{
    assert(OverrideValue::Mapping(entries).view()->Mapping_0 =~= entries_view(entries@));
}

/// A list's content is the content of its items, in order.
pub proof fn lemma_list_view(items: Vec<OverrideValue>)
    ensures
        OverrideValue::List(items).view() == ValueView::List(list_view(items@)),
{
    assert(OverrideValue::List(items).view()->List_0 =~= list_view(items@));
}

/// A key found among the first `n` entries is found at the same place among
/// all of them.
pub proof fn lemma_key_position_prefix(entries: Seq<(Seq<char>, ValueView)>, n: int, key: Seq<char>)
    requires
        0 <= n <= entries.len(),
        key_position(entries.take(n), key) is Some,
    ensures
        key_position(entries, key) == key_position(entries.take(n), key),
    decreases entries.len() - n,
{
    if n == entries.len() {
        assert(entries.take(n) =~= entries);
    } else {
        assert(entries.take(n + 1).drop_last() =~= entries.take(n));
        lemma_key_position_prefix(entries, n + 1, key);
    }
}

/// Merging keeps every entry of the base in its place and under its key;
/// entries are only ever added behind them.
pub proof fn lemma_merge_keeps_base_keys(
    base: Seq<(Seq<char>, ValueView)>,
    over: Seq<(Seq<char>, ValueView)>,
    n: nat,
)
    ensures
        merged_entries(base, over, n).len() >= base.len(),
        forall|i: int|
            0 <= i < base.len() ==> (#[trigger] merged_entries(base, over, n)[i]).0 == base[i].0,
    decreases n,
{
    if n == 0 || n > over.len() {
    } else {
        lemma_merge_keeps_base_keys(base, over, (n - 1) as nat);
        let before = merged_entries(base, over, (n - 1) as nat);
        let entry = over[n - 1];
        match key_position(before, entry.0) {
            Some(i) => {
                lemma_key_position_found(before, entry.0);
            },
            None => {},
        }
    }
}

/// A position found for a key lies within the entries and holds that key.
pub proof fn lemma_key_position_found(entries: Seq<(Seq<char>, ValueView)>, key: Seq<char>)
    requires
        key_position(entries, key) is Some,
    ensures
        0 <= key_position(entries, key)->Some_0 < entries.len(),
        entries[key_position(entries, key)->Some_0].0 == key,
    decreases entries.len(),
{
    if entries.len() > 0 {
        if key_position(entries.drop_last(), key) is Some {
            lemma_key_position_found(entries.drop_last(), key);
        }
    }
}

/// A copy of the value with the same content.
#[verifier::loop_isolation(false)]
pub fn clone_value(v: &OverrideValue) -> (r: OverrideValue)
    ensures
        r.view() == v.view(),
    decreases v,
{
    match v {
        OverrideValue::Null => OverrideValue::Null,
        OverrideValue::Bool(b) => OverrideValue::Bool(*b),
        OverrideValue::Number(n) => OverrideValue::Number(n.clone()),
        OverrideValue::Text(s) => OverrideValue::Text(s.clone()),
        OverrideValue::List(items) => {
            let mut out: Vec<OverrideValue> = Vec::new();
            let mut i: usize = 0;
            while i < items.len()
                invariant
                    i <= items@.len(),
                    out@.len() == i,
                    forall|j: int| 0 <= j < i ==> (#[trigger] out@[j]).view() == items@[j].view(),
                decreases items@.len() - i,
            {
                out.push(clone_value(&items[i]));
                i += 1;
            }
            proof {
                lemma_list_view(out);
                lemma_list_view(*items);
                assert(list_view(out@) =~= list_view(items@));
            }
            OverrideValue::List(out)
        },
        OverrideValue::Mapping(entries) => {
            let mut out: Vec<(String, OverrideValue)> = Vec::new();
            let mut i: usize = 0;
            while i < entries.len()
                invariant
                    i <= entries@.len(),
                    out@.len() == i,
                    forall|j: int|
                        0 <= j < i ==> (#[trigger] out@[j]).0@ == entries@[j].0@
                            && out@[j].1.view() == entries@[j].1.view(),
                decreases entries@.len() - i,
            {
                out.push((entries[i].0.clone(), clone_value(&entries[i].1)));
                i += 1;
            }
            proof {
                assert(entries_view(out@) =~= entries_view(entries@));
                lemma_mapping_view(out);
                lemma_mapping_view(*entries);
            }
            OverrideValue::Mapping(out)
        },
    }
}

fn clone_entries(entries: &Vec<(String, OverrideValue)>) -> (r: Vec<(String, OverrideValue)>)
    ensures
        entries_view(r@) == entries_view(entries@),
{
    let mut out: Vec<(String, OverrideValue)> = Vec::new();
    let mut i: usize = 0;
    while i < entries.len()
        invariant
            i <= entries@.len(),
            out@.len() == i,
            forall|j: int|
                0 <= j < i ==> (#[trigger] out@[j]).0@ == entries@[j].0@ && out@[j].1.view()
                    == entries@[j].1.view(),
        decreases entries@.len() - i,
    {
        out.push((entries[i].0.clone(), clone_value(&entries[i].1)));
        i += 1;
    }
    assert(entries_view(out@) =~= entries_view(entries@));
    out
}

fn find_key(entries: &Vec<(String, OverrideValue)>, key: &String) -> (r: Option<usize>)
    ensures
        match r {
            Some(i) => key_position(entries_view(entries@), key@) == Some(i as int) && i
                < entries@.len() && entries@[i as int].0@ == key@,
            None => key_position(entries_view(entries@), key@) is None,
        },
{
    let ghost view = entries_view(entries@);
    let mut i: usize = 0;
    proof {
        assert(view.take(0) =~= Seq::empty());
    }
    while i < entries.len()
        invariant
            i <= entries@.len(),
            view == entries_view(entries@),
            key_position(view.take(i as int), key@) is None,
        decreases entries@.len() - i,
    {
        proof {
            assert(view.take(i + 1).drop_last() =~= view.take(i as int));
        }
        if entries[i].0 == *key {
            proof {
                lemma_key_position_prefix(view, i + 1, key@);
            }
            return Some(i);
        }
        i += 1;
    }
    proof {
        assert(view.take(i as int) =~= view);
    }
    None
}

/// Merges `over` into `base`. Two mappings give a mapping with every entry
/// of `base`, in which each entry of `over` is merged into the entry of the
/// same key by this same rule, or appended where `base` has no such key. In
/// every other case the result is `over`.
#[verifier::loop_isolation(false)]
pub fn merge_values(base: &OverrideValue, over: &OverrideValue) -> (r: OverrideValue)
    ensures
        r.view() == merged(base.view(), over.view()),
        !(base.view() is Mapping && over.view() is Mapping) ==> r.view() == over.view(),
    decreases over,
{
    match over {
        OverrideValue::Mapping(o) => match base {
            OverrideValue::Mapping(b) => {
                let mut out = clone_entries(b);
                let ghost bv = entries_view(b@);
                let ghost ov = entries_view(o@);
                let mut j: usize = 0;
                while j < o.len()
                    invariant
                        j <= o@.len(),
                        entries_view(out@) == merged_entries(bv, ov, j as nat),
                    decreases o@.len() - j,
                {
                    let ghost before = entries_view(out@);
                    let key = &o[j].0;
                    match find_key(&out, key) {
                        Some(i) => {
                            let value = merge_values(&out[i].1, &o[j].1);
                            out.set(i, (key.clone(), value));
                            assert(entries_view(out@) =~= before.update(
                                i as int,
                                (ov[j as int].0, merged(before[i as int].1, ov[j as int].1)),
                            ));
                        },
                        None => {
                            out.push((key.clone(), clone_value(&o[j].1)));
                            assert(entries_view(out@) =~= before.push(ov[j as int]));
                        },
                    }
                    j += 1;
                }
                proof {
                    lemma_mapping_view(out);
                    lemma_mapping_view(*b);
                    lemma_mapping_view(*o);
                }
                OverrideValue::Mapping(out)
            },
            _ => clone_value(over),
        },
        _ => clone_value(over),
    }
}

} // verus!

//! Adding values to the entries of a JSON object, as compaction does: an
//! entry may collect several values in an array.
use vstd::prelude::*;
use crate::json::{Json, JsonV, entries_view, json_view, json_seq_view, lemma_entries_view, lemma_json_seq_view};
use crate::text::{str_eq, to_string};

verus! {

/// No key occurs twice.
pub open spec fn unique_keys(e: Seq<(Seq<char>, JsonV)>) -> bool {
    forall|i: int, j: int| 0 <= i < e.len() && 0 <= j < e.len() && i != j ==> e[i].0 != e[j].0
}

/// The position of the entry with key `k`, if any.
pub open spec fn key_at(e: Seq<(Seq<char>, JsonV)>, k: Seq<char>) -> Option<int> {
    if exists|i: int| 0 <= i < e.len() && #[trigger] e[i].0 == k {
        Some(choose|i: int| 0 <= i < e.len() && #[trigger] e[i].0 == k)
    } else {
        None
    }
}

/// Before a value is added under `k`: a value already there that is not
/// an array becomes an array of it (and its entry moves to the end); with
/// `as_array`, a missing entry starts as an empty array.
pub open spec fn prepare_entry(e: Seq<(Seq<char>, JsonV)>, k: Seq<char>, as_array: bool) -> Seq<(Seq<char>, JsonV)> {
    match key_at(e, k) {
        Some(i) => if e[i].1 is Array {
            e
        } else {
            e.remove(i).push((k, JsonV::Array(seq![e[i].1])))
        },
        None => if as_array {
            e.push((k, JsonV::Array(Seq::empty())))
        } else {
            e
        },
    }
}

/// Adds a value that is not an array: appended to the array under `k`, or
/// a new entry.
pub open spec fn add_one(e: Seq<(Seq<char>, JsonV)>, k: Seq<char>, v: JsonV) -> Seq<(Seq<char>, JsonV)> {
    match key_at(e, k) {
        Some(i) => match e[i].1 {
            JsonV::Array(a) => e.update(i, (k, JsonV::Array(a.push(v)))),
            _ => e,
        },
        None => e.push((k, v)),
    }
}

/// The number of items of an array.
pub open spec fn array_len(j: JsonV) -> int {
    match j {
        JsonV::Array(items) => items.len() as int,
        _ => 0,
    }
}

/// Adds `v` under the key `k`; the items of an array are added one by one.
pub open spec fn add_value_spec(e: Seq<(Seq<char>, JsonV)>, k: Seq<char>, v: JsonV, as_array: bool) -> Seq<(Seq<char>, JsonV)>
    decreases v, 1int, 0int,
{
    let e1 = prepare_entry(e, k, as_array);
    match v {
        JsonV::Array(_) => add_items(e1, k, v, 0),
        _ => add_one(e1, k, v),
    }
}

/// Adds the items of the array `parent` from the `i`-th on.
pub open spec fn add_items(e: Seq<(Seq<char>, JsonV)>, k: Seq<char>, parent: JsonV, i: int) -> Seq<(Seq<char>, JsonV)>
    decreases parent, 0int, array_len(parent) - i,
{
    match parent {
        JsonV::Array(items) => if 0 <= i < items.len() {
            proof {
                assert(decreases_to!(parent => items));
                assert(decreases_to!(items => items[i]));
            }
            add_items(add_value_spec(e, k, items[i], false), k, parent, i + 1)
        } else {
            e
        },
        _ => e,
    }
}

/// Finds [`key_at`].
pub(crate) fn find_entry(map: &Vec<(String, Json)>, key: &str) -> (r: Option<usize>)
    requires
        unique_keys(entries_view(map@)),
    ensures
        match r {
            Some(i) => key_at(entries_view(map@), key@) == Some(i as int) && i < map@.len(),
            None => key_at(entries_view(map@), key@) is None,
        },
{
    proof {
        lemma_entries_view(map@);
    }
    let ghost e = entries_view(map@);
    let mut i: usize = 0;
    while i < map.len()
        invariant
            i <= map@.len(),
            e == entries_view(map@),
            e.len() == map@.len(),
            unique_keys(e),
            forall|k: int| 0 <= k < map@.len() ==> #[trigger] e[k] == (map@[k].0@, json_view(map@[k].1)),
            forall|j: int| 0 <= j < i ==> e[j].0 != key@,
        decreases map@.len() - i,
    {
        if str_eq(map[i].0.as_str(), key) {
            proof {
                assert(e[i as int].0 == key@);
                let c = choose|j: int| 0 <= j < e.len() && #[trigger] e[j].0 == key@;
                assert(c == i);
            }
            return Some(i);
        }
        i = i + 1;
    }
    None
}

/// Makes the entry under `key` ready for a value (see [`prepare_entry`]).
fn prepare_exec(map: &mut Vec<(String, Json)>, key: &str, as_array: bool)
    requires
        unique_keys(entries_view(old(map)@)),
    ensures
        unique_keys(entries_view(final(map)@)),
        entries_view(final(map)@) == prepare_entry(entries_view(old(map)@), key@, as_array),
{
    proof {
        lemma_entries_view(map@);
    }
    let ghost e = entries_view(map@);
    match find_entry(map, key) {
        Some(i) => {
            let is_array = match &map[i].1 {
                Json::Array(_) => true,
                _ => false,
            };
            proof {
                assert(e[i as int] == (map@[i as int].0@, json_view(map@[i as int].1)));
            }
            proof {
                assert(e[i as int].0 == key@);
            }
            if !is_array {
                let (k0, old) = map.remove(i);
                let ghost removed = map@;
                let mut a: Vec<Json> = Vec::new();
                a.push(old);
                map.push((k0, Json::Array(a)));
                proof {
                    lemma_entries_view(removed);
                    lemma_entries_view(map@);
                    lemma_json_seq_view(a@);
                    assert(json_seq_view(a@) =~= seq![e[i as int].1]);
                    assert(entries_view(map@) =~= e.remove(i as int).push((key@, JsonV::Array(seq![e[i as int].1]))));
                    lemma_unique_remove_push(e, i as int, key@, JsonV::Array(seq![e[i as int].1]));
                    assert(entries_view(map@) == prepare_entry(e, key@, as_array));
                }
            } else {
                assert(e[i as int].1 is Array);
                assert(entries_view(map@) == prepare_entry(e, key@, as_array));
            }
        },
        None => {
            if as_array {
                let ghost before = map@;
                let empty: Vec<Json> = Vec::new();
                let j = Json::Array(empty);
                proof {
                    assert(json_seq_view(empty@) =~= Seq::<JsonV>::empty());
                    assert(json_view(j) == JsonV::Array(Seq::empty()));
                }
                let k = to_string(key);
                map.push((k, j));
                proof {
                    assert(map@.drop_last() =~= before);
                    assert(entries_view(map@) == entries_view(before).push((k@, json_view(j))));
                    assert(json_seq_view(Seq::<Json>::empty()) =~= Seq::<JsonV>::empty());
                    lemma_unique_push_absent(e, key@, JsonV::Array(Seq::empty()));
                    assert(entries_view(map@) =~= e.push((key@, JsonV::Array(Seq::empty()))));
                }
            }
        },
    }
}

proof fn lemma_unique_remove_push(e: Seq<(Seq<char>, JsonV)>, i: int, k: Seq<char>, v: JsonV)
    requires
        unique_keys(e),
        0 <= i < e.len(),
        e[i].0 == k,
    ensures
        unique_keys(e.remove(i).push((k, v))),
{
    let f = e.remove(i).push((k, v));
    assert forall|a: int, b: int| 0 <= a < f.len() && 0 <= b < f.len() && a != b implies f[a].0 != f[b].0 by {
        let ia = if a < i { a } else if a < f.len() - 1 { a + 1 } else { i };
        let ib = if b < i { b } else if b < f.len() - 1 { b + 1 } else { i };
        assert(f[a].0 == e[ia].0);
        assert(f[b].0 == e[ib].0);
    }
}

pub(crate) proof fn lemma_unique_push_absent(e: Seq<(Seq<char>, JsonV)>, k: Seq<char>, v: JsonV)
    requires
        unique_keys(e),
        key_at(e, k) is None,
    ensures
        unique_keys(e.push((k, v))),
{
    let f = e.push((k, v));
    assert forall|a: int, b: int| 0 <= a < f.len() && 0 <= b < f.len() && a != b implies f[a].0 != f[b].0 by {
        if a < e.len() && b < e.len() {
            assert(f[a] == e[a] && f[b] == e[b]);
        } else if a < e.len() {
            assert(f[a] == e[a]);
            assert(!(e[a].0 == k));
        } else {
            assert(f[b] == e[b]);
            assert(!(e[b].0 == k));
        }
    }
}

/// Adds a value that is not an array (see [`add_one`]).
fn add_one_exec(map: &mut Vec<(String, Json)>, key: &str, v: Json)
    requires
        unique_keys(entries_view(old(map)@)),
    ensures
        unique_keys(entries_view(final(map)@)),
        entries_view(final(map)@) == add_one(entries_view(old(map)@), key@, v@),
{
    proof {
        lemma_entries_view(map@);
    }
    let ghost e = entries_view(map@);
    let ghost vv = v@;
    match find_entry(map, key) {
        Some(i) => {
            let (k0, old) = map.remove(i);
            match old {
                Json::Array(a) => {
                    let ghost a0 = a@;
                    let mut a = a;
                    a.push(v);
                    proof {
                        assert(a@.drop_last() =~= a0);
                    }
                    map.insert(i, (k0, Json::Array(a)));
                    proof {
                        lemma_entries_view(map@);
                        assert(entries_view(map@) =~= e.update(i as int, (key@, JsonV::Array(json_seq_view(a0).push(vv)))));
                        assert forall|x: int, y: int| 0 <= x < map@.len() && 0 <= y < map@.len() && x != y
                            implies entries_view(map@)[x].0 != entries_view(map@)[y].0 by {
                            assert(entries_view(map@)[x].0 == e[x].0);
                            assert(entries_view(map@)[y].0 == e[y].0);
                        }
                    }
                },
                other => {
                    map.insert(i, (k0, other));
                    proof {
                        lemma_entries_view(map@);
                        assert(entries_view(map@) =~= e);
                    }
                },
            }
        },
        None => {
            let ghost before = map@;
            map.push((to_string(key), v));
            proof {
                assert(map@.drop_last() =~= before);
                lemma_unique_push_absent(e, key@, vv);
            }
        },
    }
}

/// Adds `value` under `key` in the entries `map`, as an array when
/// `as_array` holds (see [`add_value_spec`]).
pub fn add_value(map: &mut Vec<(String, Json)>, key: &str, value: &Json, as_array: bool)
    requires
        unique_keys(entries_view(old(map)@)),
    ensures
        unique_keys(entries_view(final(map)@)),
        entries_view(final(map)@) == add_value_spec(entries_view(old(map)@), key@, value@, as_array),
    decreases value,
{
    prepare_exec(map, key, as_array);
    match value {
        Json::Array(items) => {
            proof {
                lemma_json_seq_view(items@);
            }
            let ghost e1 = entries_view(map@);
            let mut i: usize = 0;
            while i < items.len()
                invariant
                    i <= items@.len(),
                    *value == Json::Array(*items),
                    json_seq_view(items@).len() == items@.len(),
                    forall|k: int| 0 <= k < items@.len() ==> #[trigger] json_seq_view(items@)[k] == json_view(items@[k]),
                    unique_keys(entries_view(map@)),
                    add_items(e1, key@, value@, 0) == add_items(entries_view(map@), key@, value@, i as int),
                decreases items@.len() - i,
            {
                proof {
                    assert(decreases_to!(*value => (*value)->Array_0));
                    assert(decreases_to!(*items => items@));
                    assert(decreases_to!(items@ => items@[i as int]));
                    assert(decreases_to!(*value => items@[i as int]));
                }
                let ghost before = entries_view(map@);
                add_value(map, key, &items[i], false);
                proof {
                    assert(json_seq_view(items@)[i as int] == items@[i as int]@);
                    assert(add_items(before, key@, value@, i as int)
                        == add_items(add_value_spec(before, key@, items@[i as int]@, false), key@, value@, i + 1));
                }
                i = i + 1;
            }
        },
        _ => {
            add_one_exec(map, key, value.deep_clone());
        },
    }
}

/// The entry under `k` is there and holds an array.
pub open spec fn array_entry(e: Seq<(Seq<char>, JsonV)>, k: Seq<char>) -> bool {
    key_at(e, k) matches Some(i) && e[i].1 is Array
}

proof fn lemma_key_at_unique(e: Seq<(Seq<char>, JsonV)>, k: Seq<char>, i: int)
    requires
        unique_keys(e),
        0 <= i < e.len(),
        e[i].0 == k,
    ensures
        key_at(e, k) == Some(i),
{
    let c = choose|j: int| 0 <= j < e.len() && #[trigger] e[j].0 == k;
    assert(e[c].0 == k);
}

proof fn lemma_prepare_as_array(e: Seq<(Seq<char>, JsonV)>, k: Seq<char>)
    requires
        unique_keys(e),
    ensures
        unique_keys(prepare_entry(e, k, true)),
        array_entry(prepare_entry(e, k, true), k),
{
    match key_at(e, k) {
        Some(i) => {
            assert(e[i].0 == k);
            if !(e[i].1 is Array) {
                let f = e.remove(i).push((k, JsonV::Array(seq![e[i].1])));
                lemma_unique_remove_push(e, i, k, JsonV::Array(seq![e[i].1]));
                lemma_key_at_unique(f, k, f.len() - 1);
            } else {
                lemma_key_at_unique(e, k, i);
            }
        },
        None => {
            let f = e.push((k, JsonV::Array(Seq::empty())));
            lemma_unique_push_absent(e, k, JsonV::Array(Seq::empty()));
            lemma_key_at_unique(f, k, f.len() - 1);
        },
    }
}

proof fn lemma_add_one_keeps_array(e: Seq<(Seq<char>, JsonV)>, k: Seq<char>, v: JsonV)
    requires
        unique_keys(e),
        array_entry(e, k),
    ensures
        unique_keys(add_one(e, k, v)),
        array_entry(add_one(e, k, v), k),
{
    let i = key_at(e, k)->0;
    assert(e[i].0 == k);
    match e[i].1 {
        JsonV::Array(a) => {
            let f = e.update(i, (k, JsonV::Array(a.push(v))));
            assert forall|x: int, y: int| 0 <= x < f.len() && 0 <= y < f.len() && x != y implies f[x].0 != f[y].0 by {
                assert(f[x].0 == e[x].0);
                assert(f[y].0 == e[y].0);
            }
            lemma_key_at_unique(f, k, i);
        },
        _ => {},
    }
}

/// Adding values under `k` while its entry holds an array keeps it an
/// array (and the keys unique).
proof fn lemma_add_keeps_array(e: Seq<(Seq<char>, JsonV)>, k: Seq<char>, v: JsonV)
    requires
        unique_keys(e),
        array_entry(e, k),
    ensures
        unique_keys(add_value_spec(e, k, v, false)),
        array_entry(add_value_spec(e, k, v, false), k),
    decreases v, 1int, 0int,
{
    let i = key_at(e, k)->0;
    assert(prepare_entry(e, k, false) == e);
    match v {
        JsonV::Array(_) => lemma_items_keep_array(e, k, v, 0),
        _ => lemma_add_one_keeps_array(e, k, v),
    }
}

proof fn lemma_items_keep_array(e: Seq<(Seq<char>, JsonV)>, k: Seq<char>, parent: JsonV, i: int)
    requires
        unique_keys(e),
        array_entry(e, k),
    ensures
        unique_keys(add_items(e, k, parent, i)),
        array_entry(add_items(e, k, parent, i), k),
    decreases parent, 0int, array_len(parent) - i,
{
    match parent {
        JsonV::Array(items) => if 0 <= i < items.len() {
            assert(decreases_to!(parent => items));
            assert(decreases_to!(items => items[i]));
            lemma_add_keeps_array(e, k, items[i]);
            lemma_items_keep_array(add_value_spec(e, k, items[i], false), k, parent, i + 1);
        },
        _ => {},
    }
}

/// Adding a value as an array: whatever the value, the entry under `k`
/// then holds an array, and the keys stay unique.
pub proof fn lemma_add_as_array_gives_array(e: Seq<(Seq<char>, JsonV)>, k: Seq<char>, v: JsonV)
    requires
        unique_keys(e),
    ensures
        unique_keys(add_value_spec(e, k, v, true)),
        array_entry(add_value_spec(e, k, v, true), k),
{
    lemma_prepare_as_array(e, k);
    let e1 = prepare_entry(e, k, true);
    match v {
        JsonV::Array(_) => lemma_items_keep_array(e1, k, v, 0),
        _ => lemma_add_one_keeps_array(e1, k, v),
    }
}

} // verus!

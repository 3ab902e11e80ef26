//! JSON values, as read by the JSON-LD algorithms.
use vstd::prelude::*;
use crate::text::str_eq;

verus! {

/// A JSON value. Numbers keep their lexical form; object entries keep their order.
#[derive(Debug)]
pub enum Json {
    Null,
    Boolean(bool),
    Number(String),
    String(String),
    Array(Vec<Json>),
    Object(Vec<(String, Json)>),
}

/// Mathematical form of a JSON value.
pub enum JsonV {
    Null,
    Boolean(bool),
    Number(Seq<char>),
    String(Seq<char>),
    Array(Seq<JsonV>),
    Object(Seq<(Seq<char>, JsonV)>),
}

pub open spec fn json_view(j: Json) -> JsonV
    decreases j,
{
    match j {
        Json::Null => JsonV::Null,
        Json::Boolean(b) => JsonV::Boolean(b),
        Json::Number(n) => JsonV::Number(n@),
        Json::String(s) => JsonV::String(s@),
        Json::Array(v) => JsonV::Array(json_seq_view(v@)),
        Json::Object(v) => JsonV::Object(entries_view(v@)),
    }
}

pub open spec fn json_seq_view(s: Seq<Json>) -> Seq<JsonV>
    decreases s,
{
    if s.len() == 0 {
        Seq::empty()
    } else {
        json_seq_view(s.drop_last()).push(json_view(s.last()))
    }
}

pub open spec fn entries_view(s: Seq<(String, Json)>) -> Seq<(Seq<char>, JsonV)>
    decreases s,
{
    if s.len() == 0 {
        Seq::empty()
    } else {
        entries_view(s.drop_last()).push((s.last().0@, json_view(s.last().1)))
    }
}

impl View for Json {
    type V = JsonV;

    open spec fn view(&self) -> JsonV {
        json_view(*self)
    }
}


pub proof fn lemma_json_seq_view(s: Seq<Json>)
    ensures
        json_seq_view(s).len() == s.len(),
        forall|i: int| 0 <= i < s.len() ==> #[trigger] json_seq_view(s)[i] == json_view(s[i]),
    decreases s.len(),
{
    if s.len() > 0 {
        lemma_json_seq_view(s.drop_last());
        assert forall|i: int| 0 <= i < s.len() implies #[trigger] json_seq_view(s)[i] == json_view(s[i]) by {
            if i < s.len() - 1 {
                assert(s.drop_last()[i] == s[i]);
            }
        }
    }
}

pub proof fn lemma_entries_view(s: Seq<(String, Json)>)
    ensures
        entries_view(s).len() == s.len(),
        forall|i: int| 0 <= i < s.len() ==> #[trigger] entries_view(s)[i] == (s[i].0@, json_view(s[i].1)),
    decreases s.len(),
{
    if s.len() > 0 {
        lemma_entries_view(s.drop_last());
        assert forall|i: int| 0 <= i < s.len() implies #[trigger] entries_view(s)[i] == (s[i].0@, json_view(s[i].1)) by {
            if i < s.len() - 1 {
                assert(s.drop_last()[i] == s[i]);
            }
        }
    }
}

/// The value of the first entry of `o` whose key is `k`.
pub open spec fn entries_get(o: Seq<(Seq<char>, JsonV)>, k: Seq<char>) -> Option<JsonV>
    decreases o.len(),
{
    if o.len() == 0 {
        None
    } else if o[0].0 == k {
        Some(o[0].1)
    } else {
        entries_get(o.drop_first(), k)
    }
}

/// Checks if `o` has an entry with key `k`.
pub open spec fn entries_has(o: Seq<(Seq<char>, JsonV)>, k: Seq<char>) -> bool {
    entries_get(o, k) is Some
}

/// A JSON value as a list: the items of an array, or the value itself.
pub open spec fn as_array(j: JsonV) -> Seq<JsonV> {
    match j {
        JsonV::Array(items) => items,
        _ => seq![j],
    }
}

pub proof fn lemma_entries_get_index(o: Seq<(Seq<char>, JsonV)>, k: Seq<char>, i: int)
    requires
        0 <= i < o.len(),
        o[i].0 == k,
        forall|j: int| 0 <= j < i ==> o[j].0 != k,
    ensures
        entries_get(o, k) == Some(o[i].1),
    decreases i,
{
    if i > 0 {
        lemma_entries_get_index(o.drop_first(), k, i - 1);
    }
}

pub proof fn lemma_entries_get_none(o: Seq<(Seq<char>, JsonV)>, k: Seq<char>)
    requires
        forall|j: int| 0 <= j < o.len() ==> o[j].0 != k,
    ensures
        entries_get(o, k) is None,
    decreases o.len(),
{
    if o.len() > 0 {
        lemma_entries_get_none(o.drop_first(), k);
    }
}

/// The value of the first entry of the object `o` whose key is `key`.
pub fn object_get<'a>(o: &'a Vec<(String, Json)>, key: &str) -> (r: Option<&'a Json>)
    ensures
        r matches Some(v) ==> entries_get(entries_view(o@), key@) == Some(v@),
        r is None ==> entries_get(entries_view(o@), key@) is None,
{
    proof {
        lemma_entries_view(o@);
    }
    let mut i: usize = 0;
    while i < o.len()
        invariant
            i <= o@.len(),
            entries_view(o@).len() == o@.len(),
            forall|j: int| 0 <= j < o@.len() ==> #[trigger] entries_view(o@)[j] == (o@[j].0@, json_view(o@[j].1)),
            forall|j: int| 0 <= j < i ==> entries_view(o@)[j].0 != key@,
        decreases o@.len() - i,
    {
        if str_eq(o[i].0.as_str(), key) {
            proof {
                lemma_entries_get_index(entries_view(o@), key@, i as int);
            }
            return Some(&o[i].1);
        }
        i = i + 1;
    }
    proof {
        lemma_entries_get_none(entries_view(o@), key@);
    }
    None
}

impl Json {
    /// Copies the value.
    pub fn deep_clone(&self) -> (r: Json)
        ensures
            r@ == self@,
        decreases self,
    {
        match self {
            Json::Null => Json::Null,
            Json::Boolean(b) => Json::Boolean(*b),
            Json::Number(n) => Json::Number(n.clone()),
            Json::String(s) => Json::String(s.clone()),
            Json::Array(items) => {
                let mut out: Vec<Json> = Vec::new();
                let mut i: usize = 0;
                while i < items.len()
                    invariant
                        i <= items@.len(),
                        json_seq_view(out@) == json_seq_view(items@.subrange(0, i as int)),
                        *self == Json::Array(*items),
                    decreases items@.len() - i,
                {
                    let ghost before = out@;
                    proof {
                        assert(decreases_to!(*self => (*self)->Array_0));
                        assert(decreases_to!(*items => items@));
                        assert(decreases_to!(items@ => items@[i as int]));
                        assert(decreases_to!(*self => items@[i as int]));
                    }
                    let c = items[i].deep_clone();
                    out.push(c);
                    proof {
                        assert(out@.drop_last() =~= before);
                        assert(items@.subrange(0, i + 1).drop_last() =~= items@.subrange(0, i as int));
                    }
                    i = i + 1;
                }
                proof {
                    assert(items@.subrange(0, items@.len() as int) =~= items@);
                }
                Json::Array(out)
            },
            Json::Object(entries) => {
                let mut out: Vec<(String, Json)> = Vec::new();
                let mut i: usize = 0;
                while i < entries.len()
                    invariant
                        i <= entries@.len(),
                        entries_view(out@) == entries_view(entries@.subrange(0, i as int)),
                        *self == Json::Object(*entries),
                    decreases entries@.len() - i,
                {
                    let ghost before = out@;
                    proof {
                        assert(decreases_to!(*self => (*self)->Object_0));
                        assert(decreases_to!(*entries => entries@));
                        assert(decreases_to!(entries@ => entries@[i as int]));
                        assert(decreases_to!(entries@[i as int] => entries@[i as int].1));
                        assert(decreases_to!(*self => entries@[i as int].1));
                    }
                    let c = entries[i].1.deep_clone();
                    out.push((entries[i].0.clone(), c));
                    proof {
                        assert(out@.drop_last() =~= before);
                        assert(entries@.subrange(0, i + 1).drop_last() =~= entries@.subrange(0, i as int));
                    }
                    i = i + 1;
                }
                proof {
                    assert(entries@.subrange(0, entries@.len() as int) =~= entries@);
                }
                Json::Object(out)
            },
        }
    }
}


/// Checks if two JSON values are the same.
pub fn json_eq(a: &Json, b: &Json) -> (r: bool)
    ensures
        r == (a@ == b@),
    decreases a,
{
    match (a, b) {
        (Json::Null, Json::Null) => true,
        (Json::Boolean(x), Json::Boolean(y)) => *x == *y,
        (Json::Number(x), Json::Number(y)) => *x == *y,
        (Json::String(x), Json::String(y)) => *x == *y,
        (Json::Array(x), Json::Array(y)) => {
            proof {
                lemma_json_seq_view(x@);
                lemma_json_seq_view(y@);
            }
            if x.len() != y.len() {
                return false;
            }
            let mut i: usize = 0;
            while i < x.len()
                invariant
                    *a == Json::Array(*x),
                    *b == Json::Array(*y),
                    x@.len() == y@.len(),
                    i <= x@.len(),
                    json_seq_view(x@).len() == x@.len(),
                    json_seq_view(y@).len() == y@.len(),
                    forall|j: int| 0 <= j < x@.len() ==> #[trigger] json_seq_view(x@)[j] == json_view(x@[j]),
                    forall|j: int| 0 <= j < y@.len() ==> #[trigger] json_seq_view(y@)[j] == json_view(y@[j]),
                    forall|j: int| 0 <= j < i ==> json_seq_view(x@)[j] == json_seq_view(y@)[j],
                decreases x@.len() - i,
            {
                proof {
                    assert(decreases_to!(*a => (*a)->Array_0));
                    assert(decreases_to!(*x => x@));
                    assert(decreases_to!(x@ => x@[i as int]));
                }
                if !json_eq(&x[i], &y[i]) {
                    proof {
                        assert(json_seq_view(x@)[i as int] != json_seq_view(y@)[i as int]);
                        assert(a@ == JsonV::Array(json_seq_view(x@)));
                    }
                    return false;
                }
                i = i + 1;
            }
            proof {
                assert(json_seq_view(x@) =~= json_seq_view(y@));
            }
            true
        },
        (Json::Object(x), Json::Object(y)) => {
            proof {
                lemma_entries_view(x@);
                lemma_entries_view(y@);
            }
            if x.len() != y.len() {
                return false;
            }
            let mut i: usize = 0;
            while i < x.len()
                invariant
                    *a == Json::Object(*x),
                    *b == Json::Object(*y),
                    x@.len() == y@.len(),
                    i <= x@.len(),
                    entries_view(x@).len() == x@.len(),
                    entries_view(y@).len() == y@.len(),
                    forall|j: int| 0 <= j < x@.len() ==> #[trigger] entries_view(x@)[j] == (x@[j].0@, json_view(x@[j].1)),
                    forall|j: int| 0 <= j < y@.len() ==> #[trigger] entries_view(y@)[j] == (y@[j].0@, json_view(y@[j].1)),
                    forall|j: int| 0 <= j < i ==> entries_view(x@)[j] == entries_view(y@)[j],
                decreases x@.len() - i,
            {
                proof {
                    assert(decreases_to!(*a => (*a)->Object_0));
                    assert(decreases_to!(*x => x@));
                    assert(decreases_to!(x@ => x@[i as int]));
                    assert(decreases_to!(x@[i as int] => x@[i as int].1));
                }
                if x[i].0 != y[i].0 {
                    proof {
                        assert(entries_view(x@)[i as int] != entries_view(y@)[i as int]);
                        assert(a@ == JsonV::Object(entries_view(x@)));
                    }
                    return false;
                }
                if !json_eq(&x[i].1, &y[i].1) {
                    proof {
                        assert(entries_view(x@)[i as int] != entries_view(y@)[i as int]);
                        assert(a@ == JsonV::Object(entries_view(x@)));
                    }
                    return false;
                }
                i = i + 1;
            }
            proof {
                assert(entries_view(x@) =~= entries_view(y@));
            }
            true
        },
        _ => false,
    }
}

/// The number of values in a JSON value: one for itself, plus those of its
/// items or entry values.
pub open spec fn json_size(j: JsonV) -> nat
    decreases j, 1int, 0int,
{
    match j {
        JsonV::Array(items) => 1 + children_size(j, items.len() as int),
        JsonV::Object(entries) => 1 + children_size(j, entries.len() as int),
        _ => 1,
    }
}

/// The number of values in the first `n` items or entry values of `j`.
pub open spec fn children_size(j: JsonV, n: int) -> nat
    decreases j, 0int, n,
{
    match j {
        JsonV::Array(items) => if n <= 0 || n > items.len() {
            0
        } else {
            proof {
                assert(decreases_to!(j => items));
                assert(decreases_to!(items => items[n - 1]));
            }
            children_size(j, n - 1) + json_size(items[n - 1])
        },
        JsonV::Object(entries) => if n <= 0 || n > entries.len() {
            0
        } else {
            proof {
                assert(decreases_to!(j => entries));
                assert(decreases_to!(entries => entries[n - 1]));
                assert(decreases_to!(entries[n - 1] => entries[n - 1].1));
            }
            children_size(j, n - 1) + json_size(entries[n - 1].1)
        },
        _ => 0,
    }
}

/// `n`, capped at the largest `usize`.
pub open spec fn cap(n: nat) -> nat {
    if n > usize::MAX { usize::MAX as nat } else { n }
}

impl Json {
    /// The number of values in this value, capped at the largest `usize`.
    pub fn size(&self) -> (r: usize)
        ensures
            r as nat == cap(json_size(self@)),
        decreases self,
    {
        match self {
            Json::Array(items) => {
                proof {
                    lemma_json_seq_view(items@);
                }
                let mut total: usize = 0;
                let mut i: usize = 0;
                while i < items.len()
                    invariant
                        i <= items@.len(),
                        *self == Json::Array(*items),
                        json_seq_view(items@).len() == items@.len(),
                        forall|k: int| 0 <= k < items@.len() ==> #[trigger] json_seq_view(items@)[k] == json_view(items@[k]),
                        total as nat == cap(children_size(self@, i as int)),
                    decreases items@.len() - i,
                {
                    proof {
                        assert(decreases_to!(*self => (*self)->Array_0));
                        assert(decreases_to!(*items => items@));
                        assert(decreases_to!(items@ => items@[i as int]));
                        assert(decreases_to!(*self => items@[i as int]));
                    }
                    let n = items[i].size();
                    total = total.saturating_add(n);
                    i = i + 1;
                }
                total.saturating_add(1)
            },
            Json::Object(entries) => {
                proof {
                    lemma_entries_view(entries@);
                }
                let mut total: usize = 0;
                let mut i: usize = 0;
                while i < entries.len()
                    invariant
                        i <= entries@.len(),
                        *self == Json::Object(*entries),
                        entries_view(entries@).len() == entries@.len(),
                        forall|k: int| 0 <= k < entries@.len() ==> #[trigger] entries_view(entries@)[k] == (entries@[k].0@, json_view(entries@[k].1)),
                        total as nat == cap(children_size(self@, i as int)),
                    decreases entries@.len() - i,
                {
                    proof {
                        assert(decreases_to!(*self => (*self)->Object_0));
                        assert(decreases_to!(*entries => entries@));
                        assert(decreases_to!(entries@ => entries@[i as int]));
                        assert(decreases_to!(entries@[i as int] => entries@[i as int].1));
                        assert(decreases_to!(*self => entries@[i as int].1));
                    }
                    let n = entries[i].1.size();
                    total = total.saturating_add(n);
                    i = i + 1;
                }
                total.saturating_add(1)
            },
            _ => 1,
        }
    }
}

} // verus!

//! Interning of IRIs and blank node identifiers into indexes.
use vstd::prelude::*;

verus! {

/// Index of an interned IRI or blank node identifier.
#[derive(Clone, Copy, PartialEq, Eq, Structural, Hash, PartialOrd, Ord, Debug)]
pub struct Index(pub usize);

impl Index {
    /// Wraps a raw index.
    pub fn from_usize(i: usize) -> (r: Index)
        ensures
            r.0 == i,
    {
        Index(i)
    }
}

/// IRI identifier: an interned index, or an IRI value.
#[derive(Clone, Copy, PartialEq, Eq, Hash, PartialOrd, Ord, Debug)]
pub enum IriIndex<I> {
    Index(usize),
    Iri(I),
}

/// Blank node identifier: an interned index, or a blank identifier value.
#[derive(Clone, Copy, PartialEq, Eq, Hash, PartialOrd, Ord, Debug)]
pub enum BlankIdIndex<B> {
    Index(usize),
    BlankId(B),
}

/// Position of the first occurrence of `x` in `s`, if any.
pub open spec fn index_of(s: Seq<Seq<char>>, x: Seq<char>) -> Option<nat>
    decreases s.len(),
{
    if s.len() == 0 {
        None
    } else if s.last() == x {
        match index_of(s.drop_last(), x) {
            Some(i) => Some(i),
            None => Some((s.len() - 1) as nat),
        }
    } else {
        index_of(s.drop_last(), x)
    }
}

/// Interns IRIs and blank node identifiers, giving each distinct value a
/// stable index.
pub struct IndexNamespace {
    allocated: Vec<String>,
    blank_allocated: Vec<String>,
}

/// The table as a sequence of strings.
pub open spec fn table_view(v: Seq<String>) -> Seq<Seq<char>> {
    Seq::new(v.len(), |i: int| v[i]@)
}

/// No string occurs twice in the table.
pub open spec fn table_unique(t: Seq<Seq<char>>) -> bool {
    forall|i: int, j: int| 0 <= i < t.len() && 0 <= j < t.len() && i != j ==> t[i] != t[j]
}

proof fn lemma_index_of(t: Seq<Seq<char>>, x: Seq<char>)
    requires
        table_unique(t),
    ensures
        index_of(t, x) is None <==> !t.contains(x),
        index_of(t, x) matches Some(i) ==> i < t.len() && t[i as int] == x,
        forall|i: int| 0 <= i < t.len() && t[i] == x ==> index_of(t, x) == Some(i as nat),
    decreases t.len(),
{
    if t.len() > 0 {
        let p = t.drop_last();
        assert(table_unique(p));
        lemma_index_of(p, x);
        if p.contains(x) {
            let k = choose|k: int| 0 <= k < p.len() && p[k] == x;
            assert(t[k] == x);
        }
        assert forall|i: int| 0 <= i < t.len() && t[i] == x implies index_of(t, x) == Some(i as nat) by {
            if i < t.len() - 1 {
                assert(p[i] == x);
            } else if p.contains(x) {
                let k = choose|k: int| 0 <= k < p.len() && p[k] == x;
                assert(t[k] == t[i]);
            }
        }
    }
}

impl IndexNamespace {
    /// The interned IRIs, in the order of their indexes.
    pub closed spec fn iris(&self) -> Seq<Seq<char>> {
        table_view(self.allocated@)
    }

    /// The interned blank node identifiers, in the order of their indexes.
    pub closed spec fn blank_ids(&self) -> Seq<Seq<char>> {
        table_view(self.blank_allocated@)
    }

    /// Each value is interned at most once.
    pub open spec fn wf(&self) -> bool {
        table_unique(self.iris()) && table_unique(self.blank_ids())
    }

    /// Creates an empty namespace.
    pub fn new() -> (r: Self)
        ensures
            r.wf(),
            r.iris().len() == 0,
            r.blank_ids().len() == 0,
    {
        IndexNamespace { allocated: Vec::new(), blank_allocated: Vec::new() }
    }

    fn lookup(table: &Vec<String>, value: &str) -> (r: Option<usize>)
        requires
            table_unique(table_view(table@)),
        ensures
            r matches Some(i) ==> index_of(table_view(table@), value@) == Some(i as nat),
            r is None ==> index_of(table_view(table@), value@) is None,
    {
        proof {
            lemma_index_of(table_view(table@), value@);
        }
        let mut i: usize = 0;
        while i < table.len()
            invariant
                i <= table@.len(),
                table_unique(table_view(table@)),
                forall|j: int| 0 <= j < i ==> table@[j]@ != value@,
                index_of(table_view(table@), value@) is None <==> !table_view(table@).contains(value@),
                forall|j: int| 0 <= j < table@.len() && table_view(table@)[j] == value@ ==> index_of(table_view(table@), value@) == Some(j as nat),
            decreases table@.len() - i,
        {
            if crate::text::str_eq(table[i].as_str(), value) {
                assert(table_view(table@)[i as int] == value@);
                return Some(i);
            }
            i = i + 1;
        }
        proof {
            if table_view(table@).contains(value@) {
                let k = choose|k: int| 0 <= k < table_view(table@).len() && table_view(table@)[k] == value@;
                assert(table@[k]@ == value@);
            }
        }
        None
    }

    /// The index of `iri`, if it was interned.
    pub fn get(&self, iri: &str) -> (r: Option<usize>)
        requires
            self.wf(),
        ensures
            r matches Some(i) ==> index_of(self.iris(), iri@) == Some(i as nat),
            r is None ==> index_of(self.iris(), iri@) is None,
    {
        Self::lookup(&self.allocated, iri)
    }

    /// The IRI interned at index `i`, if any.
    pub fn iri(&self, i: usize) -> (r: Option<&str>)
        ensures
            r matches Some(s) ==> i < self.iris().len() && s@ == self.iris()[i as int],
            r is None ==> i >= self.iris().len(),
    {
        if i < self.allocated.len() {
            Some(self.allocated[i].as_str())
        } else {
            None
        }
    }

    /// Interns `iri`, returning its index; an IRI interned before keeps its index.
    pub fn insert(&mut self, iri: &str) -> (r: usize)
        requires
            old(self).wf(),
        ensures
            final(self).wf(),
            final(self).blank_ids() == old(self).blank_ids(),
            old(self).iris().contains(iri@) ==> final(self).iris() == old(self).iris(),
            !old(self).iris().contains(iri@) ==> final(self).iris() == old(self).iris().push(iri@),
            r < final(self).iris().len(),
            final(self).iris()[r as int] == iri@,
            index_of(final(self).iris(), iri@) == Some(r as nat),
    {
        proof {
            lemma_index_of(table_view(self.allocated@), iri@);
        }
        match Self::lookup(&self.allocated, iri) {
            Some(i) => i,
            None => {
                let i = self.allocated.len();
                let ghost before = table_view(self.allocated@);
                self.allocated.push(crate::text::to_string(iri));
                proof {
                    assert(table_view(self.allocated@) =~= before.push(iri@));
                    lemma_index_of(table_view(self.allocated@), iri@);
                }
                i
            },
        }
    }

    /// The index of the blank node identifier `id`, if it was interned.
    pub fn get_blank_id(&self, id: &str) -> (r: Option<usize>)
        requires
            self.wf(),
        ensures
            r matches Some(i) ==> index_of(self.blank_ids(), id@) == Some(i as nat),
            r is None ==> index_of(self.blank_ids(), id@) is None,
    {
        Self::lookup(&self.blank_allocated, id)
    }

    /// The blank node identifier interned at index `i`, if any.
    pub fn blank_id(&self, i: usize) -> (r: Option<&str>)
        ensures
            r matches Some(s) ==> i < self.blank_ids().len() && s@ == self.blank_ids()[i as int],
            r is None ==> i >= self.blank_ids().len(),
    {
        if i < self.blank_allocated.len() {
            Some(self.blank_allocated[i].as_str())
        } else {
            None
        }
    }

    /// Interns the blank node identifier `id`, returning its index.
    pub fn insert_blank_id(&mut self, id: &str) -> (r: usize)
        requires
            old(self).wf(),
        ensures
            final(self).wf(),
            final(self).iris() == old(self).iris(),
            old(self).blank_ids().contains(id@) ==> final(self).blank_ids() == old(self).blank_ids(),
            !old(self).blank_ids().contains(id@) ==> final(self).blank_ids() == old(self).blank_ids().push(id@),
            r < final(self).blank_ids().len(),
            final(self).blank_ids()[r as int] == id@,
            index_of(final(self).blank_ids(), id@) == Some(r as nat),
    {
        proof {
            lemma_index_of(table_view(self.blank_allocated@), id@);
        }
        match Self::lookup(&self.blank_allocated, id) {
            Some(i) => i,
            None => {
                let i = self.blank_allocated.len();
                let ghost before = table_view(self.blank_allocated@);
                self.blank_allocated.push(crate::text::to_string(id));
                proof {
                    assert(table_view(self.blank_allocated@) =~= before.push(id@));
                    lemma_index_of(table_view(self.blank_allocated@), id@);
                }
                i
            },
        }
    }
}

} // verus!

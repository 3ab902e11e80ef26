//! Container mappings of term definitions.
use vstd::prelude::*;
use crate::syntax::ContainerKind;
use crate::nullable::Nullable;

verus! {

/// Raised when a set of container kinds is not a valid container mapping.
pub struct InvalidContainer;

/// Syntactic container mapping: a single kind or a list of kinds.
#[derive(Clone, PartialEq, Eq, Debug)]
pub enum ContainerSyntax {
    One(ContainerKind),
    Many(Vec<ContainerKind>),
}

/// A valid combination of container kinds.
#[derive(Clone, Copy, PartialEq, Eq, Structural, Debug, Hash)]
pub enum Container {
    /// Empty container.
    Empty,
    Graph,
    Id,
    Index,
    Language,
    List,
    SetOnly,
    Type,
    GraphSet,
    GraphId,
    GraphIndex,
    IdSet,
    IndexSet,
    LanguageSet,
    SetType,
    GraphIdSet,
    GraphIndexSet,
}

/// The kinds making up a container, in their canonical order.
pub open spec fn container_kinds(c: Container) -> Seq<ContainerKind> {
    match c {
        Container::Empty => seq![],
        Container::Graph => seq![ContainerKind::Graph],
        Container::Id => seq![ContainerKind::Id],
        Container::Index => seq![ContainerKind::Index],
        Container::Language => seq![ContainerKind::Language],
        Container::List => seq![ContainerKind::List],
        Container::SetOnly => seq![ContainerKind::SetKind],
        Container::Type => seq![ContainerKind::Type],
        Container::GraphSet => seq![ContainerKind::Graph, ContainerKind::SetKind],
        Container::GraphId => seq![ContainerKind::Graph, ContainerKind::Id],
        Container::GraphIndex => seq![ContainerKind::Graph, ContainerKind::Index],
        Container::IdSet => seq![ContainerKind::Id, ContainerKind::SetKind],
        Container::IndexSet => seq![ContainerKind::Index, ContainerKind::SetKind],
        Container::LanguageSet => seq![ContainerKind::Language, ContainerKind::SetKind],
        Container::SetType => seq![ContainerKind::Type, ContainerKind::SetKind],
        Container::GraphIdSet => seq![ContainerKind::Graph, ContainerKind::Id, ContainerKind::SetKind],
        Container::GraphIndexSet => seq![
            ContainerKind::Graph,
            ContainerKind::Index,
            ContainerKind::SetKind,
        ],
    }
}

/// The container made of the single kind `c`.
pub open spec fn container_of_kind(c: ContainerKind) -> Container {
    match c {
        ContainerKind::Graph => Container::Graph,
        ContainerKind::Id => Container::Id,
        ContainerKind::Index => Container::Index,
        ContainerKind::Language => Container::Language,
        ContainerKind::List => Container::List,
        ContainerKind::SetKind => Container::SetOnly,
        ContainerKind::Type => Container::Type,
    }
}

/// The container obtained by adding the kind `k` to `c`, if the result is valid.
pub open spec fn container_with(c: Container, k: ContainerKind) -> Option<Container> {
    match (c, k) {
        (Container::Empty, k) => Some(container_of_kind(k)),
        (Container::Graph, ContainerKind::Graph) => Some(c),
        (Container::Graph, ContainerKind::SetKind) => Some(Container::GraphSet),
        (Container::Graph, ContainerKind::Id) => Some(Container::GraphId),
        (Container::Graph, ContainerKind::Index) => Some(Container::GraphIndex),
        (Container::Id, ContainerKind::Id) => Some(c),
        (Container::Id, ContainerKind::Graph) => Some(Container::GraphId),
        (Container::Id, ContainerKind::SetKind) => Some(Container::IdSet),
        (Container::Index, ContainerKind::Index) => Some(c),
        (Container::Index, ContainerKind::Graph) => Some(Container::GraphIndex),
        (Container::Index, ContainerKind::SetKind) => Some(Container::IndexSet),
        (Container::Language, ContainerKind::Language) => Some(c),
        (Container::Language, ContainerKind::SetKind) => Some(Container::LanguageSet),
        (Container::List, ContainerKind::List) => Some(c),
        (Container::SetOnly, ContainerKind::SetKind) => Some(c),
        (Container::SetOnly, ContainerKind::Graph) => Some(Container::GraphSet),
        (Container::SetOnly, ContainerKind::Id) => Some(Container::IdSet),
        (Container::SetOnly, ContainerKind::Index) => Some(Container::IndexSet),
        (Container::SetOnly, ContainerKind::Language) => Some(Container::LanguageSet),
        (Container::SetOnly, ContainerKind::Type) => Some(Container::SetType),
        (Container::Type, ContainerKind::Type) => Some(c),
        (Container::Type, ContainerKind::SetKind) => Some(Container::SetType),
        (Container::GraphSet, ContainerKind::Graph) => Some(c),
        (Container::GraphSet, ContainerKind::SetKind) => Some(c),
        (Container::GraphSet, ContainerKind::Id) => Some(Container::GraphIdSet),
        (Container::GraphSet, ContainerKind::Index) => Some(Container::GraphIdSet),
        (Container::GraphId, ContainerKind::Graph) => Some(c),
        (Container::GraphId, ContainerKind::Id) => Some(c),
        (Container::GraphId, ContainerKind::SetKind) => Some(Container::GraphIdSet),
        (Container::GraphIndex, ContainerKind::Graph) => Some(c),
        (Container::GraphIndex, ContainerKind::Index) => Some(c),
        (Container::GraphIndex, ContainerKind::SetKind) => Some(Container::GraphIndexSet),
        (Container::IdSet, ContainerKind::Id) => Some(c),
        (Container::IdSet, ContainerKind::SetKind) => Some(c),
        (Container::IdSet, ContainerKind::Graph) => Some(Container::GraphIdSet),
        (Container::IndexSet, ContainerKind::Index) => Some(c),
        (Container::IndexSet, ContainerKind::SetKind) => Some(c),
        (Container::IndexSet, ContainerKind::Graph) => Some(Container::GraphIndexSet),
        (Container::LanguageSet, ContainerKind::Language) => Some(c),
        (Container::LanguageSet, ContainerKind::SetKind) => Some(c),
        (Container::SetType, ContainerKind::SetKind) => Some(c),
        (Container::SetType, ContainerKind::Type) => Some(c),
        (Container::GraphIdSet, ContainerKind::Graph) => Some(c),
        (Container::GraphIdSet, ContainerKind::Id) => Some(c),
        (Container::GraphIdSet, ContainerKind::SetKind) => Some(c),
        (Container::GraphIndexSet, ContainerKind::Graph) => Some(c),
        (Container::GraphIndexSet, ContainerKind::Index) => Some(c),
        (Container::GraphIndexSet, ContainerKind::SetKind) => Some(c),
        _ => None,
    }
}

/// The container obtained by adding each kind of `ks` in turn, or the first
/// kind that cannot be added.
pub open spec fn container_from_kinds(start: Container, ks: Seq<ContainerKind>) -> Result<Container, ContainerKind>
    decreases ks.len(),
{
    if ks.len() == 0 {
        Ok(start)
    } else {
        match container_with(start, ks[0]) {
            Some(c) => container_from_kinds(c, ks.drop_first()),
            None => Err(ks[0]),
        }
    }
}

impl Container {
    /// The empty container.
    pub fn new() -> (r: Container)
        ensures
            r == Container::Empty,
    {
        Container::Empty
    }

    /// The container made of the single kind `c`.
    pub fn from_kind(c: ContainerKind) -> (r: Container)
        ensures
            r == container_of_kind(c),
    {
        match c {
            ContainerKind::Graph => Container::Graph,
            ContainerKind::Id => Container::Id,
            ContainerKind::Index => Container::Index,
            ContainerKind::Language => Container::Language,
            ContainerKind::List => Container::List,
            ContainerKind::SetKind => Container::SetOnly,
            ContainerKind::Type => Container::Type,
        }
    }

    /// The kinds making up this container.
    pub fn as_slice(&self) -> (r: &'static [ContainerKind])
        ensures
            r@ == container_kinds(*self),
    {
        match self {
            Container::Empty => &[],
            Container::Graph => &[ContainerKind::Graph],
            Container::Id => &[ContainerKind::Id],
            Container::Index => &[ContainerKind::Index],
            Container::Language => &[ContainerKind::Language],
            Container::List => &[ContainerKind::List],
            Container::SetOnly => &[ContainerKind::SetKind],
            Container::Type => &[ContainerKind::Type],
            Container::GraphSet => &[ContainerKind::Graph, ContainerKind::SetKind],
            Container::GraphId => &[ContainerKind::Graph, ContainerKind::Id],
            Container::GraphIndex => &[ContainerKind::Graph, ContainerKind::Index],
            Container::IdSet => &[ContainerKind::Id, ContainerKind::SetKind],
            Container::IndexSet => &[ContainerKind::Index, ContainerKind::SetKind],
            Container::LanguageSet => &[ContainerKind::Language, ContainerKind::SetKind],
            Container::SetType => &[ContainerKind::Type, ContainerKind::SetKind],
            Container::GraphIdSet => &[ContainerKind::Graph, ContainerKind::Id, ContainerKind::SetKind],
            Container::GraphIndexSet => &[
                ContainerKind::Graph,
                ContainerKind::Index,
                ContainerKind::SetKind,
            ],
        }
    }

    /// The number of kinds in this container.
    pub fn len(&self) -> (r: usize)
        ensures
            r == container_kinds(*self).len(),
    {
        self.as_slice().len()
    }

    /// Checks if this is the empty container.
    pub fn is_empty(&self) -> (r: bool)
        ensures
            r == (*self == Container::Empty),
            r == (container_kinds(*self).len() == 0),
    {
        match self {
            Container::Empty => true,
            _ => false,
        }
    }

    /// Checks if this container includes the kind `c`.
    pub fn contains(&self, c: ContainerKind) -> (r: bool)
        ensures
            r == container_kinds(*self).contains(c),
    {
        let s = self.as_slice();
        let mut i: usize = 0;
        while i < s.len()
            invariant
                s@ == container_kinds(*self),
                i <= s@.len(),
                forall|j: int| 0 <= j < i ==> s@[j] != c,
            decreases s@.len() - i,
        {
            if s[i] == c {
                return true;
            }
            i = i + 1;
        }
        false
    }

    /// The container obtained by adding the kind `c`, if the combination is valid.
    pub fn with(&self, c: ContainerKind) -> (r: Option<Container>)
        ensures
            r == container_with(*self, c),
    {
        match (*self, c) {
            (Container::Empty, c) => Some(Container::from_kind(c)),
            (Container::Graph, ContainerKind::Graph) => Some(*self),
            (Container::Graph, ContainerKind::SetKind) => Some(Container::GraphSet),
            (Container::Graph, ContainerKind::Id) => Some(Container::GraphId),
            (Container::Graph, ContainerKind::Index) => Some(Container::GraphIndex),
            (Container::Id, ContainerKind::Id) => Some(*self),
            (Container::Id, ContainerKind::Graph) => Some(Container::GraphId),
            (Container::Id, ContainerKind::SetKind) => Some(Container::IdSet),
            (Container::Index, ContainerKind::Index) => Some(*self),
            (Container::Index, ContainerKind::Graph) => Some(Container::GraphIndex),
            (Container::Index, ContainerKind::SetKind) => Some(Container::IndexSet),
            (Container::Language, ContainerKind::Language) => Some(*self),
            (Container::Language, ContainerKind::SetKind) => Some(Container::LanguageSet),
            (Container::List, ContainerKind::List) => Some(*self),
            (Container::SetOnly, ContainerKind::SetKind) => Some(*self),
            (Container::SetOnly, ContainerKind::Graph) => Some(Container::GraphSet),
            (Container::SetOnly, ContainerKind::Id) => Some(Container::IdSet),
            (Container::SetOnly, ContainerKind::Index) => Some(Container::IndexSet),
            (Container::SetOnly, ContainerKind::Language) => Some(Container::LanguageSet),
            (Container::SetOnly, ContainerKind::Type) => Some(Container::SetType),
            (Container::Type, ContainerKind::Type) => Some(*self),
            (Container::Type, ContainerKind::SetKind) => Some(Container::SetType),
            (Container::GraphSet, ContainerKind::Graph) => Some(*self),
            (Container::GraphSet, ContainerKind::SetKind) => Some(*self),
            (Container::GraphSet, ContainerKind::Id) => Some(Container::GraphIdSet),
            (Container::GraphSet, ContainerKind::Index) => Some(Container::GraphIdSet),
            (Container::GraphId, ContainerKind::Graph) => Some(*self),
            (Container::GraphId, ContainerKind::Id) => Some(*self),
            (Container::GraphId, ContainerKind::SetKind) => Some(Container::GraphIdSet),
            (Container::GraphIndex, ContainerKind::Graph) => Some(*self),
            (Container::GraphIndex, ContainerKind::Index) => Some(*self),
            (Container::GraphIndex, ContainerKind::SetKind) => Some(Container::GraphIndexSet),
            (Container::IdSet, ContainerKind::Id) => Some(*self),
            (Container::IdSet, ContainerKind::SetKind) => Some(*self),
            (Container::IdSet, ContainerKind::Graph) => Some(Container::GraphIdSet),
            (Container::IndexSet, ContainerKind::Index) => Some(*self),
            (Container::IndexSet, ContainerKind::SetKind) => Some(*self),
            (Container::IndexSet, ContainerKind::Graph) => Some(Container::GraphIndexSet),
            (Container::LanguageSet, ContainerKind::Language) => Some(*self),
            (Container::LanguageSet, ContainerKind::SetKind) => Some(*self),
            (Container::SetType, ContainerKind::SetKind) => Some(*self),
            (Container::SetType, ContainerKind::Type) => Some(*self),
            (Container::GraphIdSet, ContainerKind::Graph) => Some(*self),
            (Container::GraphIdSet, ContainerKind::Id) => Some(*self),
            (Container::GraphIdSet, ContainerKind::SetKind) => Some(*self),
            (Container::GraphIndexSet, ContainerKind::Graph) => Some(*self),
            (Container::GraphIndexSet, ContainerKind::Index) => Some(*self),
            (Container::GraphIndexSet, ContainerKind::SetKind) => Some(*self),
            _ => None,
        }
    }

    /// Adds the kind `c` to this container; returns `false` and leaves the
    /// container unchanged if the combination is not valid.
    pub fn add(&mut self, c: ContainerKind) -> (r: bool)
        ensures
            r == (container_with(*old(self), c) is Some),
            r ==> Some(*final(self)) == container_with(*old(self), c),
            !r ==> *final(self) == *old(self),
    {
        match self.with(c) {
            Some(container) => {
                *self = container;
                true
            },
            None => false,
        }
    }

    /// Builds a container from a list of kinds, failing with the first kind
    /// that cannot be added.
    pub fn from(kinds: &[ContainerKind]) -> (r: Result<Container, ContainerKind>)
        ensures
            r == container_from_kinds(Container::Empty, kinds@),
    {
        let mut container = Container::new();
        let mut i: usize = 0;
        assert(kinds@.subrange(0, kinds@.len() as int) =~= kinds@);
        while i < kinds.len()
            invariant
                i <= kinds@.len(),
                container_from_kinds(Container::Empty, kinds@) == container_from_kinds(
                    container,
                    kinds@.subrange(i as int, kinds@.len() as int),
                ),
            decreases kinds@.len() - i,
        {
            let ghost rest = kinds@.subrange(i as int, kinds@.len() as int);
            assert(rest[0] == kinds@[i as int]);
            assert(rest.drop_first() =~= kinds@.subrange(i + 1, kinds@.len() as int));
            if !container.add(kinds[i]) {
                return Err(kinds[i]);
            }
            i = i + 1;
        }
        assert(kinds@.subrange(i as int, kinds@.len() as int).len() == 0);
        Ok(container)
    }

    /// Builds a container from its syntactic form; `null` stands for the empty container.
    pub fn from_syntax(r: Nullable<&ContainerSyntax>) -> (res: Result<Container, InvalidContainer>)
        ensures
            res matches Ok(c) ==> (match r {
                Nullable::Null => c == Container::Empty,
                Nullable::Value(ContainerSyntax::One(k)) => c == container_of_kind(*k),
                Nullable::Value(ContainerSyntax::Many(m)) => container_from_kinds(Container::Empty, m@) == Ok::<Container, ContainerKind>(c),
            }),
            res is Err <==> (r matches Nullable::Value(ContainerSyntax::Many(m)) && container_from_kinds(Container::Empty, m@) is Err),
    {
        match r {
            Nullable::Null => Ok(Container::Empty),
            Nullable::Value(ContainerSyntax::One(c)) => Ok(Container::from_kind(*c)),
            Nullable::Value(ContainerSyntax::Many(m)) => match Container::from(m.as_slice()) {
                Ok(c) => Ok(c),
                Err(_) => Err(InvalidContainer),
            },
        }
    }

    /// The syntactic form of this container: none when empty, a single kind,
    /// or the list of kinds.
    pub fn into_syntax(self) -> (r: Option<ContainerSyntax>)
        ensures
            container_kinds(self).len() == 0 ==> r is None,
            container_kinds(self).len() == 1 ==> r == Some(ContainerSyntax::One(container_kinds(self)[0])),
            container_kinds(self).len() > 1 ==> (r matches Some(ContainerSyntax::Many(v)) && v@ == container_kinds(self)),
    {
        let slice = self.as_slice();
        if slice.len() == 0 {
            None
        } else if slice.len() == 1 {
            Some(ContainerSyntax::One(slice[0]))
        } else {
            let mut v: Vec<ContainerKind> = Vec::new();
            let mut i: usize = 0;
            while i < slice.len()
                invariant
                    i <= slice@.len(),
                    v@ == slice@.subrange(0, i as int),
                decreases slice@.len() - i,
            {
                v.push(slice[i]);
                i = i + 1;
            }
            assert(v@ =~= slice@);
            Some(ContainerSyntax::Many(v))
        }
    }
}

/// Adding a kind to a container gives a container that includes that kind
/// and every kind of the original container, except when `@index` is added
/// to `[@graph, @set]`, which yields `[@graph, @id, @set]`.
pub proof fn lemma_with_includes(c: Container, k: ContainerKind)
    requires
        container_with(c, k) is Some,
        !(c == Container::GraphSet && k == ContainerKind::Index),
    ensures
        container_kinds(container_with(c, k)->0).contains(k),
        forall|x: ContainerKind|
            container_kinds(c).contains(x) ==> container_kinds(container_with(c, k)->0).contains(x),
{
    let d = container_with(c, k)->0;
    let kd = container_kinds(d);
    let kc = container_kinds(c);
    assert(kd.len() <= 3 && kc.len() <= 3);
    if kd.len() > 0 { assert(kd[0] == kd[0]); }
    if kd.len() > 1 { assert(kd[1] == kd[1]); }
    if kd.len() > 2 { assert(kd[2] == kd[2]); }
    assert((kd.len() > 0 && kd[0] == k) || (kd.len() > 1 && kd[1] == k) || (kd.len() > 2 && kd[2] == k));
    assert forall|x: ContainerKind| kc.contains(x) implies kd.contains(x) by {
        let i = choose|i: int| 0 <= i < kc.len() && kc[i] == x;
        if kd.len() > 0 { assert(kd[0] == kd[0]); }
        if kd.len() > 1 { assert(kd[1] == kd[1]); }
        if kd.len() > 2 { assert(kd[2] == kd[2]); }
    }
}

/// Adding a kind twice is the same as adding it once, except when `@index`
/// is added to `[@graph, @set]`.
pub proof fn lemma_with_idempotent(c: Container, k: ContainerKind)
    requires
        container_with(c, k) is Some,
        !(c == Container::GraphSet && k == ContainerKind::Index),
    ensures
        container_with(container_with(c, k)->0, k) == container_with(c, k),
{
}

} // verus!

//! Node identifiers, references and terms.
use vstd::prelude::*;
use crate::syntax::Keyword;

verus! {

/// Valid node identifier: an IRI or a blank node identifier.
#[derive(Clone, Debug, PartialEq, Eq, Hash)]
pub enum ValidId {
    Iri(String),
    Blank(String),
}

/// Node reference: a valid identifier, or a string that is neither an IRI nor
/// a blank node identifier.
#[derive(Clone, Debug, PartialEq, Eq, Hash)]
pub enum Reference {
    Id(String),
    Blank(String),
    Invalid(String),
}

/// Term: `null`, a keyword or a reference.
#[derive(Clone, Debug, PartialEq, Eq, Hash)]
pub enum Term {
    Null,
    Keyword(Keyword),
    Ref(Reference),
}

/// Mathematical form of a [`ValidId`].
pub enum ValidIdV {
    Iri(Seq<char>),
    Blank(Seq<char>),
}

/// Mathematical form of a [`Reference`].
pub enum ReferenceV {
    Id(Seq<char>),
    Blank(Seq<char>),
    Invalid(Seq<char>),
}

/// Mathematical form of a [`Term`].
pub enum TermV {
    Null,
    Keyword(Keyword),
    Ref(ReferenceV),
}

impl View for ValidId {
    type V = ValidIdV;

    open spec fn view(&self) -> ValidIdV {
        match self {
            ValidId::Iri(s) => ValidIdV::Iri(s@),
            ValidId::Blank(s) => ValidIdV::Blank(s@),
        }
    }
}

impl View for Reference {
    type V = ReferenceV;

    open spec fn view(&self) -> ReferenceV {
        match self {
            Reference::Id(s) => ReferenceV::Id(s@),
            Reference::Blank(s) => ReferenceV::Blank(s@),
            Reference::Invalid(s) => ReferenceV::Invalid(s@),
        }
    }
}

impl View for Term {
    type V = TermV;

    open spec fn view(&self) -> TermV {
        match self {
            Term::Null => TermV::Null,
            Term::Keyword(k) => TermV::Keyword(*k),
            Term::Ref(r) => TermV::Ref(r@),
        }
    }
}

/// The text of a reference.
pub open spec fn reference_text(r: ReferenceV) -> Seq<char> {
    match r {
        ReferenceV::Id(s) => s,
        ReferenceV::Blank(s) => s,
        ReferenceV::Invalid(s) => s,
    }
}

/// The text of a node identifier.
pub open spec fn valid_id_text(r: ValidIdV) -> Seq<char> {
    match r {
        ValidIdV::Iri(s) => s,
        ValidIdV::Blank(s) => s,
    }
}

impl ValidId {
    /// The text of the identifier.
    pub fn as_str(&self) -> (r: &str)
        ensures
            r@ == valid_id_text(self@),
    {
        match self {
            ValidId::Iri(s) => s.as_str(),
            ValidId::Blank(s) => s.as_str(),
        }
    }
}

impl Reference {
    /// The text of the reference.
    pub fn as_str(&self) -> (r: &str)
        ensures
            r@ == reference_text(self@),
    {
        match self {
            Reference::Id(s) => s.as_str(),
            Reference::Blank(s) => s.as_str(),
            Reference::Invalid(s) => s.as_str(),
        }
    }

    /// Checks that the reference is an IRI or a blank node identifier.
    pub fn is_valid(&self) -> (r: bool)
        ensures
            r == !(self@ is Invalid),
    {
        match self {
            Reference::Invalid(_) => false,
            _ => true,
        }
    }

    /// Clones the reference.
    pub fn duplicate(&self) -> (r: Reference)
        ensures
            r@ == self@,
    {
        match self {
            Reference::Id(s) => Reference::Id(s.clone()),
            Reference::Blank(s) => Reference::Blank(s.clone()),
            Reference::Invalid(s) => Reference::Invalid(s.clone()),
        }
    }
}

impl Term {
    /// Checks if the term is a keyword.
    pub fn is_keyword(&self) -> (r: bool)
        ensures
            r == (self@ is Keyword),
    {
        match self {
            Term::Keyword(_) => true,
            _ => false,
        }
    }

    /// Clones the term.
    pub fn duplicate(&self) -> (r: Term)
        ensures
            r@ == self@,
    {
        match self {
            Term::Null => Term::Null,
            Term::Keyword(k) => Term::Keyword(*k),
            Term::Ref(r) => Term::Ref(r.duplicate()),
        }
    }

    /// Checks if two terms are the same.
    pub fn same_as(&self, other: &Term) -> (r: bool)
        ensures
            r == (self@ == other@),
    {
        match (self, other) {
            (Term::Null, Term::Null) => true,
            (Term::Keyword(a), Term::Keyword(b)) => *a == *b,
            (Term::Ref(Reference::Id(a)), Term::Ref(Reference::Id(b))) => *a == *b,
            (Term::Ref(Reference::Blank(a)), Term::Ref(Reference::Blank(b))) => *a == *b,
            (Term::Ref(Reference::Invalid(a)), Term::Ref(Reference::Invalid(b))) => *a == *b,
            _ => false,
        }
    }
}

} // verus!

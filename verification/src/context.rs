//! Active contexts and term definitions.
use vstd::prelude::*;
use crate::container::{Container, ContainerSyntax, container_kinds};
use crate::id::{Term, TermV, Reference, ReferenceV};
use crate::iri::term_text;
use crate::json::{Json, JsonV, entries_view, json_seq_view};
use crate::syntax::{container_kind_text, ContainerKind};
use crate::text::to_string;
use crate::nullable::Nullable;
use crate::syntax::{Direction, Keyword};
use crate::text::str_eq;

verus! {

/// Type mapping of a term definition.
#[derive(Clone, Debug, PartialEq, Eq, Hash)]
pub enum Type {
    Id,
    Json,
    NoneType,
    Vocab,
    Ref(String),
}

/// Mathematical form of a [`Type`].
pub enum TypeV {
    Id,
    Json,
    NoneType,
    Vocab,
    Ref(Seq<char>),
}

impl View for Type {
    type V = TypeV;

    open spec fn view(&self) -> TypeV {
        match self {
            Type::Id => TypeV::Id,
            Type::Json => TypeV::Json,
            Type::NoneType => TypeV::NoneType,
            Type::Vocab => TypeV::Vocab,
            Type::Ref(s) => TypeV::Ref(s@),
        }
    }
}

/// The type mapping a term stands for, if any: `@id`, `@json`, `@none`,
/// `@vocab` or an IRI.
pub open spec fn type_of_term(t: TermV) -> Option<TypeV> {
    match t {
        TermV::Keyword(Keyword::Id) => Some(TypeV::Id),
        TermV::Keyword(Keyword::Json) => Some(TypeV::Json),
        TermV::Keyword(Keyword::NoneKw) => Some(TypeV::NoneType),
        TermV::Keyword(Keyword::Vocab) => Some(TypeV::Vocab),
        TermV::Ref(ReferenceV::Id(iri)) => Some(TypeV::Ref(iri)),
        _ => None,
    }
}

impl Type {
    /// The type mapping the term `t` stands for, if any.
    pub fn try_from_term(t: Term) -> (r: Option<Type>)
        ensures
            r matches Some(ty) ==> type_of_term(t@) == Some(ty@),
            r is None ==> type_of_term(t@) is None,
    {
        match t {
            Term::Keyword(Keyword::Id) => Some(Type::Id),
            Term::Keyword(Keyword::Json) => Some(Type::Json),
            Term::Keyword(Keyword::NoneKw) => Some(Type::NoneType),
            Term::Keyword(Keyword::Vocab) => Some(Type::Vocab),
            Term::Ref(Reference::Id(iri)) => Some(Type::Ref(iri)),
            _ => None,
        }
    }

    /// Copies the type mapping.
    pub fn duplicate(&self) -> (r: Type)
        ensures
            r@ == self@,
    {
        match self {
            Type::Id => Type::Id,
            Type::Json => Type::Json,
            Type::NoneType => Type::NoneType,
            Type::Vocab => Type::Vocab,
            Type::Ref(s) => Type::Ref(s.clone()),
        }
    }
}

/// Term definition.
#[derive(Debug)]
pub struct TermDefinition {
    /// IRI mapping.
    pub value: Option<Term>,
    /// Prefix flag.
    pub prefix: bool,
    /// Protected flag.
    pub protected: bool,
    /// Reverse property flag.
    pub reverse_property: bool,
    /// Base URL of the scoped context.
    pub base_url: Option<String>,
    /// Scoped context.
    pub context: Option<Json>,
    /// Container mapping.
    pub container: Container,
    /// Direction mapping.
    pub direction: Option<Nullable<Direction>>,
    /// Index mapping.
    pub index: Option<String>,
    /// Language mapping.
    pub language: Option<Nullable<String>>,
    /// Nest value.
    pub nest: Option<String>,
    /// Type mapping.
    pub typ: Option<Type>,
}

/// Mathematical form of a [`TermDefinition`].
pub struct TermDefinitionV {
    pub value: Option<TermV>,
    pub prefix: bool,
    pub protected: bool,
    pub reverse_property: bool,
    pub base_url: Option<Seq<char>>,
    pub context: Option<JsonV>,
    pub container: Container,
    pub direction: Option<Nullable<Direction>>,
    pub index: Option<Seq<char>>,
    pub language: Option<Nullable<Seq<char>>>,
    pub nest: Option<Seq<char>>,
    pub typ: Option<TypeV>,
}

pub open spec fn opt_str_view(o: Option<String>) -> Option<Seq<char>> {
    match o {
        Some(s) => Some(s@),
        None => None,
    }
}

impl View for TermDefinition {
    type V = TermDefinitionV;

    open spec fn view(&self) -> TermDefinitionV {
        TermDefinitionV {
            value: match self.value {
                Some(t) => Some(t@),
                None => None,
            },
            prefix: self.prefix,
            protected: self.protected,
            reverse_property: self.reverse_property,
            base_url: opt_str_view(self.base_url),
            context: match self.context {
                Some(c) => Some(c@),
                None => None,
            },
            container: self.container,
            direction: self.direction,
            index: opt_str_view(self.index),
            language: match self.language {
                Some(Nullable::Null) => Some(Nullable::Null),
                Some(Nullable::Value(l)) => Some(Nullable::Value(l@)),
                None => None,
            },
            nest: opt_str_view(self.nest),
            typ: match self.typ {
                Some(t) => Some(t@),
                None => None,
            },
        }
    }
}

/// The default term definition, with the given protected flag.
pub open spec fn default_definition(protected: bool) -> TermDefinitionV {
    TermDefinitionV {
        value: None,
        prefix: false,
        protected,
        reverse_property: false,
        base_url: None,
        context: None,
        container: Container::Empty,
        direction: None,
        index: None,
        language: None,
        nest: None,
        typ: None,
    }
}

/// Two definitions are the same, not counting the protected flag.
pub open spec fn same_modulo_protected(a: TermDefinitionV, b: TermDefinitionV) -> bool {
    TermDefinitionV { protected: false, ..a } == TermDefinitionV { protected: false, ..b }
}

impl TermDefinition {
    /// The default term definition, with the given protected flag.
    pub fn new(protected: bool) -> (r: TermDefinition)
        ensures
            r@ == default_definition(protected),
    {
        TermDefinition {
            value: None,
            prefix: false,
            protected,
            reverse_property: false,
            base_url: None,
            context: None,
            container: Container::Empty,
            direction: None,
            index: None,
            language: None,
            nest: None,
            typ: None,
        }
    }
}


fn opt_string_clone(o: &Option<String>) -> (r: Option<String>)
    ensures
        opt_str_view(r) == opt_str_view(*o),
{
    match o {
        Some(s) => Some(s.clone()),
        None => None,
    }
}

fn opt_string_eq(a: &Option<String>, b: &Option<String>) -> (r: bool)
    ensures
        r == (opt_str_view(*a) == opt_str_view(*b)),
{
    match (a, b) {
        (Some(x), Some(y)) => *x == *y,
        (None, None) => true,
        _ => false,
    }
}

impl TermDefinition {
    /// The IRI mapping.
    pub fn value(&self) -> (r: Option<&Term>)
        ensures
            r == (match self.value { Some(t) => Some(&t), None => None::<&Term> }),
    {
        self.value.as_ref()
    }

    /// The prefix flag.
    pub fn prefix(&self) -> (r: bool)
        ensures
            r == self.prefix,
    {
        self.prefix
    }

    /// The protected flag.
    pub fn protected(&self) -> (r: bool)
        ensures
            r == self.protected,
    {
        self.protected
    }

    /// The reverse property flag.
    pub fn reverse_property(&self) -> (r: bool)
        ensures
            r == self.reverse_property,
    {
        self.reverse_property
    }

    /// The base URL of the scoped context.
    pub fn base_url(&self) -> (r: Option<&String>)
        ensures
            r == (match self.base_url { Some(b) => Some(&b), None => None::<&String> }),
    {
        self.base_url.as_ref()
    }

    /// The scoped context.
    pub fn context(&self) -> (r: Option<&Json>)
        ensures
            r == (match self.context { Some(c) => Some(&c), None => None::<&Json> }),
    {
        self.context.as_ref()
    }

    /// The container mapping.
    pub fn container(&self) -> (r: Container)
        ensures
            r == self.container,
    {
        self.container
    }

    /// The direction mapping.
    pub fn direction(&self) -> (r: Option<Nullable<Direction>>)
        ensures
            r == self.direction,
    {
        self.direction
    }

    /// The index mapping.
    pub fn index(&self) -> (r: Option<&String>)
        ensures
            r == (match self.index { Some(i) => Some(&i), None => None::<&String> }),
    {
        self.index.as_ref()
    }

    /// The language mapping.
    pub fn language(&self) -> (r: Option<&Nullable<String>>)
        ensures
            r == (match self.language { Some(l) => Some(&l), None => None::<&Nullable<String>> }),
    {
        self.language.as_ref()
    }

    /// The nest value.
    pub fn nest(&self) -> (r: Option<&String>)
        ensures
            r == (match self.nest { Some(n) => Some(&n), None => None::<&String> }),
    {
        self.nest.as_ref()
    }

    /// The type mapping.
    pub fn typ(&self) -> (r: Option<&Type>)
        ensures
            r == (match self.typ { Some(t) => Some(&t), None => None::<&Type> }),
    {
        self.typ.as_ref()
    }
}

impl TermDefinition {
    /// Copies the definition.
    pub fn duplicate(&self) -> (r: TermDefinition)
        ensures
            r@ == self@,
    {
        TermDefinition {
            value: match &self.value {
                Some(t) => Some(t.duplicate()),
                None => None,
            },
            prefix: self.prefix,
            protected: self.protected,
            reverse_property: self.reverse_property,
            base_url: opt_string_clone(&self.base_url),
            context: match &self.context {
                Some(c) => Some(c.deep_clone()),
                None => None,
            },
            container: self.container,
            direction: self.direction,
            index: opt_string_clone(&self.index),
            language: match &self.language {
                Some(Nullable::Null) => Some(Nullable::Null),
                Some(Nullable::Value(l)) => Some(Nullable::Value(l.clone())),
                None => None,
            },
            nest: opt_string_clone(&self.nest),
            typ: match &self.typ {
                Some(t) => Some(t.duplicate()),
                None => None,
            },
        }
    }

    /// Checks if both definitions are the same, not counting the protected flag.
    pub fn eq_modulo_protected(&self, other: &TermDefinition) -> (r: bool)
        ensures
            r == same_modulo_protected(self@, other@),
    {
        let value_eq = match (&self.value, &other.value) {
            (Some(a), Some(b)) => a.same_as(b),
            (None, None) => true,
            _ => false,
        };
        let context_eq = match (&self.context, &other.context) {
            (Some(a), Some(b)) => crate::json::json_eq(a, b),
            (None, None) => true,
            _ => false,
        };
        let language_eq = match (&self.language, &other.language) {
            (Some(Nullable::Null), Some(Nullable::Null)) => true,
            (Some(Nullable::Value(a)), Some(Nullable::Value(b))) => *a == *b,
            (None, None) => true,
            _ => false,
        };
        let typ_eq = match (&self.typ, &other.typ) {
            (Some(Type::Id), Some(Type::Id)) => true,
            (Some(Type::Json), Some(Type::Json)) => true,
            (Some(Type::NoneType), Some(Type::NoneType)) => true,
            (Some(Type::Vocab), Some(Type::Vocab)) => true,
            (Some(Type::Ref(a)), Some(Type::Ref(b))) => *a == *b,
            (None, None) => true,
            _ => false,
        };
        let direction_eq = match (self.direction, other.direction) {
            (Some(Nullable::Null), Some(Nullable::Null)) => true,
            (Some(Nullable::Value(a)), Some(Nullable::Value(b))) => a == b,
            (None, None) => true,
            _ => false,
        };
        value_eq && context_eq && language_eq && typ_eq && direction_eq
            && self.prefix == other.prefix && self.reverse_property == other.reverse_property
            && opt_string_eq(&self.base_url, &other.base_url) && self.container == other.container
            && opt_string_eq(&self.index, &other.index) && opt_string_eq(&self.nest, &other.nest)
    }
}

/// Definitions of an active context: term keys with their definitions,
/// each key at most once.
pub open spec fn definitions_map(s: Seq<(String, TermDefinition)>) -> Map<Seq<char>, TermDefinitionV>
    decreases s.len(),
{
    if s.len() == 0 {
        Map::empty()
    } else {
        definitions_map(s.drop_last()).insert(s.last().0@, s.last().1@)
    }
}

/// The keys of a list of definitions.
pub open spec fn definition_keys(s: Seq<(String, TermDefinition)>) -> Seq<Seq<char>> {
    Seq::new(s.len(), |i: int| s[i].0@)
}

/// No key occurs twice.
pub open spec fn keys_unique(s: Seq<(String, TermDefinition)>) -> bool {
    forall|i: int, j: int| 0 <= i < s.len() && 0 <= j < s.len() && i != j ==> s[i].0@ != s[j].0@
}

pub proof fn lemma_definitions_map(s: Seq<(String, TermDefinition)>)
    requires
        keys_unique(s),
    ensures
        forall|i: int| 0 <= i < s.len() ==> #[trigger] definitions_map(s).contains_key(s[i].0@)
            && definitions_map(s)[s[i].0@] == s[i].1@,
        forall|k: Seq<char>| definitions_map(s).contains_key(k) ==> exists|i: int| 0 <= i < s.len() && #[trigger] s[i].0@ == k,
    decreases s.len(),
{
    if s.len() > 0 {
        let p = s.drop_last();
        assert(keys_unique(p));
        lemma_definitions_map(p);
        assert forall|i: int| 0 <= i < s.len() implies #[trigger] definitions_map(s).contains_key(s[i].0@)
            && definitions_map(s)[s[i].0@] == s[i].1@ by {
            if i < s.len() - 1 {
                assert(p[i] == s[i]);
                assert(definitions_map(p).contains_key(p[i].0@));
                assert(s[i].0@ != s.last().0@);
            }
        }
        assert forall|k: Seq<char>| definitions_map(s).contains_key(k) implies exists|i: int| 0 <= i < s.len() && #[trigger] s[i].0@ == k by {
            if k != s.last().0@ {
                assert(definitions_map(p).contains_key(k));
                let i = choose|i: int| 0 <= i < p.len() && #[trigger] p[i].0@ == k;
                assert(s[i].0@ == k);
            } else {
                assert(s[s.len() - 1].0@ == k);
            }
        }
    }
}


/// Mathematical form of an active [`Context`].
pub struct ContextV {
    pub original_base_url: Option<Seq<char>>,
    pub base_iri: Option<Seq<char>>,
    pub vocabulary: Option<TermV>,
    pub default_language: Option<Seq<char>>,
    pub default_base_direction: Option<Direction>,
    pub previous_context: Option<Box<ContextV>>,
    pub definitions: Map<Seq<char>, TermDefinitionV>,
}

/// JSON-LD active context.
#[derive(Debug)]
pub struct Context {
    original_base_url: Option<String>,
    base_iri: Option<String>,
    vocabulary: Option<Term>,
    default_language: Option<String>,
    default_base_direction: Option<Direction>,
    previous_context: Option<Box<Context>>,
    definitions: Vec<(String, TermDefinition)>,
}

pub open spec fn opt_term_view(t: Option<Term>) -> Option<TermV> {
    match t {
        Some(t) => Some(t@),
        None => None,
    }
}

/// Two contexts have the same settings and their previous contexts, in
/// turn, the same settings.
pub open spec fn same_settings(a: ContextV, b: ContextV) -> bool
    decreases a,
{
    &&& a.original_base_url == b.original_base_url
    &&& a.base_iri == b.base_iri
    &&& a.vocabulary == b.vocabulary
    &&& a.default_language == b.default_language
    &&& a.default_base_direction == b.default_base_direction
    &&& match (a.previous_context, b.previous_context) {
        (None, None) => true,
        (Some(x), Some(y)) => same_settings(*x, *y),
        _ => false,
    }
}

impl Context {
    pub closed spec fn spec_view(self) -> ContextV
        decreases self,
    {
        ContextV {
            original_base_url: opt_str_view(self.original_base_url),
            base_iri: opt_str_view(self.base_iri),
            vocabulary: opt_term_view(self.vocabulary),
            default_language: opt_str_view(self.default_language),
            default_base_direction: self.default_base_direction,
            previous_context: match self.previous_context {
                Some(b) => Some(Box::new((*b).spec_view())),
                None => None,
            },
            definitions: definitions_map(self.definitions@),
        }
    }

    /// Each term is defined at most once, here and in the previous contexts.
    pub closed spec fn wf(self) -> bool
        decreases self,
    {
        &&& keys_unique(self.definitions@)
        &&& match self.previous_context {
            Some(b) => (*b).wf(),
            None => true,
        }
    }
}

impl View for Context {
    type V = ContextV;

    open spec fn view(&self) -> ContextV {
        self.spec_view()
    }
}

/// A newly-initialized active context with the given base IRI.
pub open spec fn new_context(base: Option<Seq<char>>) -> ContextV {
    ContextV {
        original_base_url: base,
        base_iri: base,
        vocabulary: None,
        default_language: None,
        default_base_direction: None,
        previous_context: None,
        definitions: Map::empty(),
    }
}

/// The context `c` where the definition of `key` is replaced by `d`
/// (removed when `d` is none).
pub open spec fn context_set(c: ContextV, key: Seq<char>, d: Option<TermDefinitionV>) -> ContextV {
    ContextV {
        definitions: match d {
            Some(d) => c.definitions.insert(key, d),
            None => c.definitions.remove(key),
        },
        ..c
    }
}

/// Checks if some term definition of `c` is protected.
pub open spec fn has_protected(c: ContextV) -> bool {
    exists|k: Seq<char>| c.definitions.contains_key(k) && (#[trigger] c.definitions[k]).protected
}

impl Context {
    /// Creates a new context with the given base IRI.
    pub fn new(base_iri: Option<String>) -> (r: Context)
        ensures
            r.wf(),
            r@ == new_context(opt_str_view(base_iri)),
    {
        let r = Context {
            original_base_url: opt_string_clone(&base_iri),
            base_iri,
            vocabulary: None,
            default_language: None,
            default_base_direction: None,
            previous_context: None,
            definitions: Vec::new(),
        };
        proof {
            assert(definitions_map(r.definitions@) =~= Map::empty());
        }
        r
    }

    fn find(&self, term: &str) -> (r: Option<usize>)
        requires
            self.wf(),
        ensures
            r matches Some(i) ==> i < self.definitions@.len() && self.definitions@[i as int].0@ == term@,
            r is None ==> !self@.definitions.contains_key(term@),
            r is None ==> forall|j: int| 0 <= j < self.definitions@.len() ==> self.definitions@[j].0@ != term@,
    {
        proof {
            lemma_definitions_map(self.definitions@);
        }
        let mut i: usize = 0;
        while i < self.definitions.len()
            invariant
                i <= self.definitions@.len(),
                forall|j: int| 0 <= j < i ==> self.definitions@[j].0@ != term@,
            decreases self.definitions@.len() - i,
        {
            if str_eq(self.definitions[i].0.as_str(), term) {
                return Some(i);
            }
            i = i + 1;
        }
        None
    }

    /// The definition of `term`, if any.
    pub fn get(&self, term: &str) -> (r: Option<&TermDefinition>)
        requires
            self.wf(),
        ensures
            r matches Some(d) ==> self@.definitions.contains_key(term@) && self@.definitions[term@] == d@,
            r is None ==> !self@.definitions.contains_key(term@),
    {
        proof {
            lemma_definitions_map(self.definitions@);
        }
        match self.find(term) {
            Some(i) => {
                proof {
                    assert(definitions_map(self.definitions@).contains_key(self.definitions@[i as int].0@));
                }
                Some(&self.definitions[i].1)
            },
            None => None,
        }
    }

    /// Checks if `term` is defined.
    pub fn contains_term(&self, term: &str) -> (r: bool)
        requires
            self.wf(),
        ensures
            r == self@.definitions.contains_key(term@),
    {
        self.get(term).is_some()
    }

    /// Sets the definition of `term` (removes it when `definition` is none),
    /// returning the previous definition, if any.
    pub fn set(&mut self, term: &str, definition: Option<TermDefinition>) -> (r: Option<TermDefinition>)
        requires
            old(self).wf(),
        ensures
            final(self).wf(),
            final(self)@ == context_set(old(self)@, term@, match definition {
                Some(d) => Some(d@),
                None => None,
            }),
            r matches Some(p) ==> old(self)@.definitions.contains_key(term@) && old(self)@.definitions[term@] == p@,
            r is None ==> !old(self)@.definitions.contains_key(term@),
    {
        proof {
            lemma_definitions_map(self.definitions@);
        }
        let ghost old_defs = self.definitions@;
        let found = self.find(term);
        match found {
            Some(i) => {
                proof {
                    assert(definitions_map(old_defs).contains_key(old_defs[i as int].0@));
                }
                let (_, prev) = self.definitions.remove(i);
                let ghost removed = self.definitions@;
                proof {
                    assert(keys_unique(removed));
                    lemma_definitions_map(removed);
                    assert(definitions_map(removed) =~= definitions_map(old_defs).remove(term@)) by {
                        assert forall|k: Seq<char>| definitions_map(removed).contains_key(k) implies
                            k != term@ && definitions_map(old_defs).contains_key(k) by {
                            let j = choose|j: int| 0 <= j < removed.len() && #[trigger] removed[j].0@ == k;
                            if j < i {
                                assert(removed[j] == old_defs[j]);
                            } else {
                                assert(removed[j] == old_defs[j + 1]);
                            }
                        }
                        assert forall|k: Seq<char>| definitions_map(old_defs).contains_key(k) && k != term@ implies
                            definitions_map(removed).contains_key(k) && definitions_map(removed)[k] == definitions_map(old_defs)[k] by {
                            let j = choose|j: int| 0 <= j < old_defs.len() && #[trigger] old_defs[j].0@ == k;
                            if j < i {
                                assert(removed[j] == old_defs[j]);
                            } else {
                                assert(j != i);
                                assert(removed[j - 1] == old_defs[j]);
                            }
                        }
                    }
                }
                match definition {
                    Some(d) => {
                        let ghost before = self.definitions@;
                        self.definitions.push((crate::text::to_string(term), d));
                        proof {
                            assert(self.definitions@.drop_last() =~= before);
                            assert forall|a: int, b: int| 0 <= a < self.definitions@.len() && 0 <= b < self.definitions@.len() && a != b
                                implies self.definitions@[a].0@ != self.definitions@[b].0@ by {
                                if a < before.len() && b < before.len() {
                                    assert(self.definitions@[a] == before[a]);
                                    assert(self.definitions@[b] == before[b]);
                                } else if a < before.len() {
                                    assert(definitions_map(before).contains_key(before[a].0@));
                                } else {
                                    assert(definitions_map(before).contains_key(before[b].0@));
                                }
                            }
                            assert(definitions_map(self.definitions@) =~= definitions_map(old_defs).remove(term@).insert(term@, d@));
                            assert(definitions_map(old_defs).remove(term@).insert(term@, d@) =~= definitions_map(old_defs).insert(term@, d@));
                        }
                    },
                    None => {},
                }
                Some(prev)
            },
            None => {
                match definition {
                    Some(d) => {
                        let ghost before = self.definitions@;
                        self.definitions.push((crate::text::to_string(term), d));
                        proof {
                            assert(self.definitions@.drop_last() =~= before);
                            assert(keys_unique(self.definitions@));
                        }
                    },
                    None => {
                        proof {
                            assert(definitions_map(old_defs).remove(term@) =~= definitions_map(old_defs));
                        }
                    },
                }
                None
            },
        }
    }
}


impl Context {
    /// The definition of a term that is not `@type`, if any.
    pub fn get_normal(&self, term: &str) -> (r: Option<&TermDefinition>)
        requires
            self.wf(),
        ensures
            r matches Some(d) ==> term@ != "@type"@ && self@.definitions.contains_key(term@) && self@.definitions[term@] == d@,
            r is None ==> term@ == "@type"@ || !self@.definitions.contains_key(term@),
    {
        if str_eq(term, "@type") {
            None
        } else {
            self.get(term)
        }
    }

    /// The definition of `@type`, if any.
    pub fn get_type(&self) -> (r: Option<&TermDefinition>)
        requires
            self.wf(),
        ensures
            r matches Some(d) ==> self@.definitions.contains_key("@type"@) && self@.definitions["@type"@] == d@,
            r is None ==> !self@.definitions.contains_key("@type"@),
    {
        self.get("@type")
    }

    /// Sets the definition of a term that is not a keyword (removes it when
    /// `definition` is none), returning the previous definition, if any.
    pub fn set_normal(&mut self, term: &str, definition: Option<TermDefinition>) -> (r: Option<TermDefinition>)
        requires
            old(self).wf(),
            crate::syntax::keyword_of(term@) is None,
        ensures
            final(self).wf(),
            final(self)@ == context_set(old(self)@, term@, match definition {
                Some(d) => Some(d@),
                None => None,
            }),
            r matches Some(p) ==> old(self)@.definitions.contains_key(term@) && old(self)@.definitions[term@] == p@,
            r is None ==> !old(self)@.definitions.contains_key(term@),
    {
        self.set(term, definition)
    }

    /// Sets the definition of `@type` (removes it when `definition` is
    /// none), returning the previous definition, if any.
    pub fn set_type(&mut self, definition: Option<TermDefinition>) -> (r: Option<TermDefinition>)
        requires
            old(self).wf(),
        ensures
            final(self).wf(),
            final(self)@ == context_set(old(self)@, "@type"@, match definition {
                Some(d) => Some(d@),
                None => None,
            }),
            r matches Some(p) ==> old(self)@.definitions.contains_key("@type"@) && old(self)@.definitions["@type"@] == p@,
            r is None ==> !old(self)@.definitions.contains_key("@type"@),
    {
        self.set("@type", definition)
    }
}

impl Context {
    /// The base IRI that the context was created with.
    pub fn original_base_url(&self) -> (r: Option<&String>)
        ensures
            opt_str_view(match r { Some(s) => Some(*s), None => None }) == self@.original_base_url,
    {
        self.original_base_url.as_ref()
    }

    /// The current base IRI.
    pub fn base_iri(&self) -> (r: Option<&String>)
        ensures
            opt_str_view(match r { Some(s) => Some(*s), None => None }) == self@.base_iri,
    {
        self.base_iri.as_ref()
    }

    /// The vocabulary mapping.
    pub fn vocabulary(&self) -> (r: Option<&Term>)
        ensures
            opt_term_view(match r { Some(t) => Some(*t), None => None }) == self@.vocabulary,
    {
        self.vocabulary.as_ref()
    }

    /// The default language.
    pub fn default_language(&self) -> (r: Option<&String>)
        ensures
            opt_str_view(match r { Some(s) => Some(*s), None => None }) == self@.default_language,
    {
        self.default_language.as_ref()
    }

    /// The default base direction.
    pub fn default_base_direction(&self) -> (r: Option<Direction>)
        ensures
            r == self@.default_base_direction,
    {
        self.default_base_direction
    }

    /// The context to revert to, if any.
    pub fn previous_context(&self) -> (r: Option<&Context>)
        requires
            self.wf(),
        ensures
            r is None <==> self@.previous_context is None,
            r matches Some(p) ==> p.wf() && self@.previous_context == Some(Box::new(p@)),
    {
        match &self.previous_context {
            Some(p) => Some(&**p),
            None => None,
        }
    }

    /// The number of defined terms.
    pub fn len(&self) -> (r: usize)
        requires
            self.wf(),
        ensures
            r == self@.definitions.len(),
    {
        proof {
            lemma_definitions_map_len(self.definitions@);
        }
        self.definitions.len()
    }

    /// Checks that no term is defined.
    pub fn is_empty(&self) -> (r: bool)
        requires
            self.wf(),
        ensures
            r == (self@.definitions.len() == 0),
    {
        self.len() == 0
    }

    /// Checks if some term definition is protected.
    pub fn has_protected_items(&self) -> (r: bool)
        requires
            self.wf(),
        ensures
            r == has_protected(self@),
    {
        proof {
            lemma_definitions_map(self.definitions@);
        }
        let mut i: usize = 0;
        while i < self.definitions.len()
            invariant
                i <= self.definitions@.len(),
                keys_unique(self.definitions@),
                forall|j: int| 0 <= j < i ==> !self.definitions@[j].1.protected,
            decreases self.definitions@.len() - i,
        {
            if self.definitions[i].1.protected {
                proof {
                    lemma_definitions_map(self.definitions@);
                    let k = self.definitions@[i as int].0@;
                    assert(definitions_map(self.definitions@).contains_key(k));
                }
                return true;
            }
            i = i + 1;
        }
        proof {
            assert forall|k: Seq<char>| #[trigger] self@.definitions.contains_key(k) implies !self@.definitions[k].protected by {
                let j = choose|j: int| 0 <= j < self.definitions@.len() && #[trigger] self.definitions@[j].0@ == k;
                assert(definitions_map(self.definitions@).contains_key(self.definitions@[j].0@));
            }
        }
        false
    }

    /// Sets the base IRI.
    pub fn set_base_iri(&mut self, iri: Option<String>)
        ensures
            final(self).wf() == old(self).wf(),
            final(self)@ == (ContextV { base_iri: opt_str_view(iri), ..old(self)@ }),
    {
        self.base_iri = iri;
    }

    /// Sets the vocabulary mapping.
    pub fn set_vocabulary(&mut self, vocab: Option<Term>)
        ensures
            final(self).wf() == old(self).wf(),
            final(self)@ == (ContextV { vocabulary: opt_term_view(vocab), ..old(self)@ }),
    {
        self.vocabulary = vocab;
    }

    /// Sets the default language.
    pub fn set_default_language(&mut self, lang: Option<String>)
        ensures
            final(self).wf() == old(self).wf(),
            final(self)@ == (ContextV { default_language: opt_str_view(lang), ..old(self)@ }),
    {
        self.default_language = lang;
    }

    /// Sets the default base direction.
    pub fn set_default_base_direction(&mut self, dir: Option<Direction>)
        ensures
            final(self).wf() == old(self).wf(),
            final(self)@ == (ContextV { default_base_direction: dir, ..old(self)@ }),
    {
        self.default_base_direction = dir;
    }

    /// Sets the context to revert to.
    pub fn set_previous_context(&mut self, previous: Context)
        requires
            previous.wf(),
        ensures
            old(self).wf() ==> final(self).wf(),
            final(self)@ == (ContextV { previous_context: Some(Box::new(previous@)), ..old(self)@ }),
    {
        self.previous_context = Some(Box::new(previous));
    }

    /// Copies the context, with its previous contexts.
    pub fn duplicate(&self) -> (r: Context)
        requires
            self.wf(),
        ensures
            r.wf(),
            r@ == self@,
        decreases self,
    {
        let mut definitions: Vec<(String, TermDefinition)> = Vec::new();
        let mut i: usize = 0;
        while i < self.definitions.len()
            invariant
                i <= self.definitions@.len(),
                definitions@.len() == i,
                forall|j: int| 0 <= j < i ==> (#[trigger] definitions@[j]).0@ == self.definitions@[j].0@
                    && definitions@[j].1@ == self.definitions@[j].1@,
            decreases self.definitions@.len() - i,
        {
            let d = self.definitions[i].1.duplicate();
            definitions.push((self.definitions[i].0.clone(), d));
            i = i + 1;
        }
        proof {
            lemma_definitions_map_ext(definitions@, self.definitions@);
        }
        let previous_context = match &self.previous_context {
            Some(p) => {
                proof {
                    assert(decreases_to!(*self => self.previous_context));
                }
                Some(Box::new(p.duplicate()))
            },
            None => None,
        };
        Context {
            original_base_url: opt_string_clone(&self.original_base_url),
            base_iri: opt_string_clone(&self.base_iri),
            vocabulary: match &self.vocabulary {
                Some(t) => Some(t.duplicate()),
                None => None,
            },
            default_language: opt_string_clone(&self.default_language),
            default_base_direction: self.default_base_direction,
            previous_context,
            definitions,
        }
    }
}

/// Two lists of definitions with the same keys and definitions, position by
/// position, give the same map.
pub proof fn lemma_definitions_map_ext(a: Seq<(String, TermDefinition)>, b: Seq<(String, TermDefinition)>)
    requires
        a.len() == b.len(),
        forall|j: int| 0 <= j < a.len() ==> (#[trigger] a[j]).0@ == b[j].0@ && a[j].1@ == b[j].1@,
    ensures
        definitions_map(a) == definitions_map(b),
        keys_unique(a) == keys_unique(b),
    decreases a.len(),
{
    if a.len() > 0 {
        lemma_definitions_map_ext(a.drop_last(), b.drop_last());
        assert(a.last() == a[a.len() - 1]);
    }
    if keys_unique(a) {
        assert forall|i: int, j: int| 0 <= i < b.len() && 0 <= j < b.len() && i != j implies b[i].0@ != b[j].0@ by {
            assert(a[i].0@ == b[i].0@);
            assert(a[j].0@ == b[j].0@);
        }
    }
    if keys_unique(b) {
        assert forall|i: int, j: int| 0 <= i < a.len() && 0 <= j < a.len() && i != j implies a[i].0@ != a[j].0@ by {
            assert(a[i].0@ == b[i].0@);
            assert(a[j].0@ == b[j].0@);
        }
    }
}

/// With unique keys, the number of defined terms is the length of the list.
pub proof fn lemma_definitions_map_len(s: Seq<(String, TermDefinition)>)
    requires
        keys_unique(s),
    ensures
        definitions_map(s).len() == s.len(),
        definitions_map(s).dom().finite(),
    decreases s.len(),
{
    if s.len() > 0 {
        let p = s.drop_last();
        assert(keys_unique(p));
        lemma_definitions_map_len(p);
        lemma_definitions_map(p);
        if definitions_map(p).contains_key(s.last().0@) {
            let j = choose|j: int| 0 <= j < p.len() && #[trigger] p[j].0@ == s.last().0@;
            assert(s[j].0@ == s[s.len() - 1].0@);
        }
    }
}


/// The definition set for a term is the one read back for it, and the
/// other terms keep theirs; a term whose definition is removed is no longer
/// defined.
pub proof fn lemma_set_then_get(c: ContextV, key: Seq<char>, d: Option<TermDefinitionV>, other: Seq<char>)
    requires
        other != key,
    ensures
        d matches Some(x) ==> context_set(c, key, d).definitions.contains_key(key)
            && context_set(c, key, d).definitions[key] == x,
        d is None ==> !context_set(c, key, d).definitions.contains_key(key),
        context_set(c, key, d).definitions.contains_key(other) == c.definitions.contains_key(other),
        c.definitions.contains_key(other) ==> context_set(c, key, d).definitions[other] == c.definitions[other],
{
}

/// A term definition compared without its protected flag.
pub struct ModuloProtected<'a>(pub &'a TermDefinition);

impl<'a> ModuloProtected<'a> {
    /// Checks that both definitions are the same, not counting the
    /// protected flag.
    pub fn stripped_eq(&self, other: &ModuloProtected) -> (r: bool)
        ensures
            r == same_modulo_protected(self.0@, other.0@),
    {
        self.0.eq_modulo_protected(other.0)
    }
}

/// The entries `s` followed by the entry `(key, value)` when the value is
/// present.
pub open spec fn with_entry(s: Seq<(Seq<char>, JsonV)>, key: Seq<char>, value: Option<JsonV>) -> Seq<(Seq<char>, JsonV)> {
    match value {
        Some(v) => s.push((key, v)),
        None => s,
    }
}

/// The syntactic form of a type mapping.
pub open spec fn type_json(t: TypeV) -> JsonV {
    match t {
        TypeV::Id => JsonV::String("@id"@),
        TypeV::Json => JsonV::String("@json"@),
        TypeV::NoneType => JsonV::String("@none"@),
        TypeV::Vocab => JsonV::String("@vocab"@),
        TypeV::Ref(s) => JsonV::String(s),
    }
}

/// The syntactic form of a container mapping: nothing when empty, a single
/// kind, or the list of kinds.
pub open spec fn container_json(c: Container) -> Option<JsonV> {
    let ks = container_kinds(c);
    if ks.len() == 0 {
        None
    } else if ks.len() == 1 {
        Some(JsonV::String(container_kind_text(ks[0])))
    } else {
        Some(JsonV::Array(Seq::new(ks.len(), |i: int| JsonV::String(container_kind_text(ks[i])))))
    }
}

/// The syntactic form of the IRI mapping of a term: `null`, or its text.
pub open spec fn term_json(t: TermV) -> JsonV {
    match t {
        TermV::Null => JsonV::Null,
        _ => JsonV::String(term_text(t)),
    }
}

/// The syntactic form of a base direction.
pub open spec fn direction_json(d: Direction) -> JsonV {
    match d {
        Direction::Ltr => JsonV::String("ltr"@),
        Direction::Rtl => JsonV::String("rtl"@),
    }
}

/// The entries `s` followed by the first entries of the expanded syntactic
/// form of a term definition: `@id`, `@type`, `@context`, `@reverse` and
/// `@index`, in that order, each when present. The IRI mapping of a reverse
/// property is its `@reverse` entry.
pub open spec fn with_head_entries(s: Seq<(Seq<char>, JsonV)>, d: TermDefinitionV) -> Seq<(Seq<char>, JsonV)> {
    let s1 = with_entry(s, "@id"@, if d.reverse_property { None } else { match d.value { Some(t) => Some(term_json(t)), None => None } });
    let s2 = with_entry(s1, "@type"@, match d.typ { Some(t) => Some(type_json(t)), None => None });
    let s3 = with_entry(s2, "@context"@, d.context);
    let s4 = with_entry(s3, "@reverse"@, if d.reverse_property { match d.value { Some(t) => Some(JsonV::String(term_text(t))), None => None } } else { None });
    with_entry(s4, "@index"@, match d.index { Some(i) => Some(JsonV::String(i)), None => None })
}

/// The entries `s` followed by the last entries of the expanded syntactic
/// form of a term definition: `@language`, `@direction`, `@container`,
/// `@nest`, `@prefix` and `@protected`, in that order, each when present.
pub open spec fn with_tail_entries(s: Seq<(Seq<char>, JsonV)>, d: TermDefinitionV) -> Seq<(Seq<char>, JsonV)> {
    let s1 = with_entry(s, "@language"@, match d.language {
        Some(Nullable::Null) => Some(JsonV::Null),
        Some(Nullable::Value(l)) => Some(JsonV::String(l)),
        None => None,
    });
    let s2 = with_entry(s1, "@direction"@, match d.direction {
        Some(Nullable::Null) => Some(JsonV::Null),
        Some(Nullable::Value(x)) => Some(direction_json(x)),
        None => None,
    });
    let s3 = with_entry(s2, "@container"@, container_json(d.container));
    let s4 = with_entry(s3, "@nest"@, match d.nest { Some(n) => Some(JsonV::String(n)), None => None });
    let s5 = with_entry(s4, "@prefix"@, if d.prefix { Some(JsonV::Boolean(true)) } else { None });
    with_entry(s5, "@protected"@, if d.protected { Some(JsonV::Boolean(true)) } else { None })
}

/// The entries of the expanded syntactic form of a term definition.
pub open spec fn definition_entries(d: TermDefinitionV) -> Seq<(Seq<char>, JsonV)> {
    with_tail_entries(with_head_entries(Seq::empty(), d), d)
}

/// The syntactic form of a term definition: `null` when it has nothing but
/// a `null` IRI mapping (or nothing at all), the IRI mapping alone when it
/// has nothing else, else the expanded form.
pub open spec fn definition_json(d: TermDefinitionV) -> JsonV {
    let entries = definition_entries(d);
    if entries.len() == 0 {
        JsonV::Null
    } else if entries.len() == 1 && entries[0].0 == "@id"@ {
        entries[0].1
    } else {
        JsonV::Object(entries)
    }
}

proof fn lemma_push_entry(v: Seq<(String, Json)>, x: (String, Json))
    ensures
        entries_view(v.push(x)) == entries_view(v).push((x.0@, x.1@)),
{
    assert(v.push(x).drop_last() =~= v);
}

/// Appends the entry `(key, value)` when the value is present.
fn push_opt_entry(out: &mut Vec<(String, Json)>, key: &str, value: Option<Json>)
    ensures
        entries_view(final(out)@) == with_entry(entries_view(old(out)@), key@, match value { Some(v) => Some(v@), None => None }),
{
    match value {
        Some(v) => {
            let ghost before = out@;
            let entry = (to_string(key), v);
            out.push(entry);
            proof {
                lemma_push_entry(before, entry);
            }
        },
        None => {},
    }
}

/// The syntactic form of a type mapping.
fn type_json_exec(t: &Type) -> (r: Json)
    ensures
        r@ == type_json(t@),
{
    match t {
        Type::Id => Json::String(to_string("@id")),
        Type::Json => Json::String(to_string("@json")),
        Type::NoneType => Json::String(to_string("@none")),
        Type::Vocab => Json::String(to_string("@vocab")),
        Type::Ref(s) => Json::String(s.clone()),
    }
}

/// The syntactic form of a container mapping.
fn container_json_exec(c: Container) -> (r: Option<Json>)
    ensures
        match r { Some(j) => Some(j@), None => None } == container_json(c),
{
    match c.into_syntax() {
        None => None,
        Some(ContainerSyntax::One(k)) => Some(Json::String(to_string(k.into_str()))),
        Some(ContainerSyntax::Many(ks)) => {
            let mut items: Vec<Json> = Vec::new();
            let mut i: usize = 0;
            while i < ks.len()
                invariant
                    i <= ks@.len(),
                    ks@ == container_kinds(c),
                    json_seq_view(items@) == Seq::new(i as nat, |j: int| JsonV::String(container_kind_text(ks@[j]))),
                decreases ks@.len() - i,
            {
                let ghost before = items@;
                let item = Json::String(to_string(ks[i].into_str()));
                items.push(item);
                proof {
                    assert(items@.drop_last() =~= before);
                    assert(json_seq_view(items@) == json_seq_view(before).push(item@));
                    assert(item@ == JsonV::String(container_kind_text(ks@[i as int])));
                    assert(json_seq_view(items@) =~= Seq::new((i + 1) as nat, |j: int| JsonV::String(container_kind_text(ks@[j]))));
                }
                i = i + 1;
            }
            Some(Json::Array(items))
        },
    }
}

/// The syntactic form of the IRI mapping of a term.
fn term_json_exec(t: &Term) -> (r: Json)
    ensures
        r@ == term_json(t@),
{
    match t {
        Term::Null => Json::Null,
        _ => Json::String(to_string(t.as_str())),
    }
}

impl TermDefinition {
    /// Appends the first entries of the syntactic form.
    fn push_head_entries(&self, out: &mut Vec<(String, Json)>)
        ensures
            entries_view(final(out)@) == with_head_entries(entries_view(old(out)@), self@),
    {
        let id = if self.reverse_property {
            None
        } else {
            match &self.value {
                Some(t) => Some(term_json_exec(t)),
                None => None,
            }
        };
        push_opt_entry(out, "@id", id);
        push_opt_entry(out, "@type", match &self.typ {
            Some(t) => Some(type_json_exec(t)),
            None => None,
        });
        push_opt_entry(out, "@context", match &self.context {
            Some(c) => Some(c.deep_clone()),
            None => None,
        });
        let reverse = if self.reverse_property {
            match &self.value {
                Some(t) => Some(Json::String(to_string(t.as_str()))),
                None => None,
            }
        } else {
            None
        };
        push_opt_entry(out, "@reverse", reverse);
        push_opt_entry(out, "@index", match &self.index {
            Some(i) => Some(Json::String(i.clone())),
            None => None,
        });
    }

    /// Appends the last entries of the syntactic form.
    fn push_tail_entries(&self, out: &mut Vec<(String, Json)>)
        ensures
            entries_view(final(out)@) == with_tail_entries(entries_view(old(out)@), self@),
    {
        push_opt_entry(out, "@language", match &self.language {
            Some(Nullable::Null) => Some(Json::Null),
            Some(Nullable::Value(l)) => Some(Json::String(l.clone())),
            None => None,
        });
        push_opt_entry(out, "@direction", match self.direction {
            Some(Nullable::Null) => Some(Json::Null),
            Some(Nullable::Value(x)) => Some(Json::String(to_string(x.into_str()))),
            None => None,
        });
        push_opt_entry(out, "@container", container_json_exec(self.container));
        push_opt_entry(out, "@nest", match &self.nest {
            Some(n) => Some(Json::String(n.clone())),
            None => None,
        });
        push_opt_entry(out, "@prefix", if self.prefix { Some(Json::Boolean(true)) } else { None });
        push_opt_entry(out, "@protected", if self.protected { Some(Json::Boolean(true)) } else { None });
    }

    /// The syntactic form of the definition (see [`definition_json`]).
    pub fn into_syntax_definition(&self) -> (r: Json)
        ensures
            r@ == definition_json(self@),
    {
        let mut out: Vec<(String, Json)> = Vec::new();
        proof {
            assert(entries_view(out@) =~= Seq::<(Seq<char>, JsonV)>::empty());
        }
        self.push_head_entries(&mut out);
        self.push_tail_entries(&mut out);
        proof {
            crate::json::lemma_entries_view(out@);
        }
        if out.len() == 0 {
            Json::Null
        } else if out.len() == 1 && crate::text::str_eq(out[0].0.as_str(), "@id") {
            let (_, v) = out.pop().unwrap();
            v
        } else {
            Json::Object(out)
        }
    }
}


/// The entries `s` followed by the settings of an active context: `@base`,
/// `@language`, `@direction` and `@vocab`, in that order, each when present.
pub open spec fn with_context_settings(s: Seq<(Seq<char>, JsonV)>, c: ContextV) -> Seq<(Seq<char>, JsonV)> {
    let s1 = with_entry(s, "@base"@, match c.base_iri { Some(b) => Some(JsonV::String(b)), None => None });
    let s2 = with_entry(s1, "@language"@, match c.default_language { Some(l) => Some(JsonV::String(l)), None => None });
    let s3 = with_entry(s2, "@direction"@, match c.default_base_direction { Some(d) => Some(direction_json(d)), None => None });
    with_entry(s3, "@vocab"@, match c.vocabulary { Some(v) => Some(term_json(v)), None => None })
}

/// The entries of the term definitions of a list, in their syntactic form.
pub open spec fn binding_entries(list: Seq<(Seq<char>, TermDefinitionV)>) -> Seq<(Seq<char>, JsonV)> {
    list.map_values(|e: (Seq<char>, TermDefinitionV)| (e.0, definition_json(e.1)))
}

impl Context {
    /// The term definitions of the context, in the order in which they are
    /// stored.
    pub closed spec fn definition_list(self) -> Seq<(Seq<char>, TermDefinitionV)> {
        self.definitions@.map_values(|e: (String, TermDefinition)| (e.0@, e.1@))
    }

    /// Compares the settings of two contexts (original base URL, base IRI,
    /// vocabulary mapping, default language and direction) and their
    /// previous contexts in the same way; the term definitions are not
    /// compared.
    pub fn stripped_eq(&self, other: &Context) -> (r: bool)
        ensures
            r == same_settings(self@, other@),
        decreases self,
    {
        let ob = opt_string_eq(&self.original_base_url, &other.original_base_url);
        let bi = opt_string_eq(&self.base_iri, &other.base_iri);
        let vo = match (&self.vocabulary, &other.vocabulary) {
            (None, None) => true,
            (Some(a), Some(b)) => a.same_as(b),
            _ => false,
        };
        let dl = opt_string_eq(&self.default_language, &other.default_language);
        let dd = self.default_base_direction == other.default_base_direction;
        if !(ob && bi && vo && dl && dd) {
            return false;
        }
        match (&self.previous_context, &other.previous_context) {
            (None, None) => true,
            (Some(a), Some(b)) => {
                proof {
                    assert(decreases_to!(*self => self.previous_context));
                }
                (**a).stripped_eq(&**b)
            },
            _ => false,
        }
    }

    /// The number of term definitions.
    pub fn definition_count(&self) -> (r: usize)
        ensures
            r == self.definition_list().len(),
    {
        self.definitions.len()
    }

    /// The `i`-th term definition, with its term.
    pub fn definition_at(&self, i: usize) -> (r: (&String, &TermDefinition))
        requires
            i < self.definition_list().len(),
        ensures
            (r.0@, r.1@) == self.definition_list()[i as int],
    {
        let e = &self.definitions[i];
        (&e.0, &e.1)
    }

    /// The syntactic form of the context: its settings, then its term
    /// definitions in their syntactic form.
    pub fn into_syntax_definition(&self) -> (r: Json)
        requires
            !(self@.vocabulary matches Some(TermV::Keyword(_))),
        ensures
            r@ == JsonV::Object(with_context_settings(Seq::empty(), self@) + binding_entries(self.definition_list())),
    {
        let mut out: Vec<(String, Json)> = Vec::new();
        proof {
            assert(entries_view(out@) =~= Seq::<(Seq<char>, JsonV)>::empty());
        }
        push_opt_entry(&mut out, "@base", match &self.base_iri {
            Some(b) => Some(Json::String(b.clone())),
            None => None,
        });
        push_opt_entry(&mut out, "@language", match &self.default_language {
            Some(l) => Some(Json::String(l.clone())),
            None => None,
        });
        push_opt_entry(&mut out, "@direction", match self.default_base_direction {
            Some(d) => Some(Json::String(to_string(d.into_str()))),
            None => None,
        });
        push_opt_entry(&mut out, "@vocab", match &self.vocabulary {
            Some(v) => Some(term_json_exec(v)),
            None => None,
        });
        let ghost head = entries_view(out@);
        let mut i: usize = 0;
        while i < self.definitions.len()
            invariant
                i <= self.definitions@.len(),
                entries_view(out@) == head + binding_entries(self.definition_list().subrange(0, i as int)),
                self.definition_list().len() == self.definitions@.len(),
                forall|j: int| 0 <= j < self.definitions@.len() ==> #[trigger] self.definition_list()[j] == (self.definitions@[j].0@, self.definitions@[j].1@),
            decreases self.definitions@.len() - i,
        {
            let ghost before = out@;
            let entry = (self.definitions[i].0.clone(), self.definitions[i].1.into_syntax_definition());
            out.push(entry);
            proof {
                lemma_push_entry(before, entry);
                let list = self.definition_list();
                assert(binding_entries(list.subrange(0, i + 1)) =~= binding_entries(list.subrange(0, i as int)).push((list[i as int].0, definition_json(list[i as int].1))));
            }
            i = i + 1;
        }
        proof {
            assert(self.definition_list().subrange(0, self.definitions@.len() as int) =~= self.definition_list());
        }
        Json::Object(out)
    }
}

/// The term definitions listed by a well-formed context are exactly its
/// definitions, each term once.
pub proof fn lemma_definition_list(c: Context)
    requires
        c.wf(),
    ensures
        forall|i: int, j: int| 0 <= i < j < c.definition_list().len() ==> c.definition_list()[i].0 != c.definition_list()[j].0,
        forall|i: int| 0 <= i < c.definition_list().len() ==> #[trigger] c@.definitions.contains_key(c.definition_list()[i].0)
            && c@.definitions[c.definition_list()[i].0] == c.definition_list()[i].1,
        forall|k: Seq<char>| c@.definitions.contains_key(k) ==> exists|i: int| 0 <= i < c.definition_list().len() && #[trigger] c.definition_list()[i].0 == k,
{
    lemma_definitions_map(c.definitions@);
    assert forall|k: Seq<char>| c@.definitions.contains_key(k) implies exists|i: int| 0 <= i < c.definition_list().len() && #[trigger] c.definition_list()[i].0 == k by {
        let i = choose|i: int| 0 <= i < c.definitions@.len() && #[trigger] c.definitions@[i].0@ == k;
        assert(c.definition_list()[i].0 == k);
    }
    assert forall|i: int| 0 <= i < c.definition_list().len() implies #[trigger] c@.definitions.contains_key(c.definition_list()[i].0)
        && c@.definitions[c.definition_list()[i].0] == c.definition_list()[i].1 by {
        assert(definitions_map(c.definitions@).contains_key(c.definitions@[i].0@));
    }
}
} // verus!

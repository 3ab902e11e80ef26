//! Remote contexts available to context processing.
//!
//! Context processing never fetches a document itself: the documents that it
//! may dereference are handed to it in a [`ContextStore`], keyed by their IRI.
//! A reference to a document that the store lacks is reported as a
//! [`CannotLoad`] error, naming the IRI, so that the caller can fetch it, add
//! it to the store and process again.
use vstd::prelude::*;
use crate::error::Error;
use crate::json::{Json, JsonV, entries_view, entries_get, object_get, lemma_entries_view, json_size, children_size, json_view, cap};

verus! {

/// The IRI of a document that could not be loaded.
#[derive(Debug)]
pub struct CannotLoad(pub String);

/// A context processing error as a value: a failed load carries the IRI.
pub open spec fn error_view(e: Error<CannotLoad>) -> Error<Seq<char>> {
    match e {
        Error::ContextLoadingFailed(CannotLoad(iri)) => Error::ContextLoadingFailed(iri@),
        Error::InvalidContextNullification => Error::InvalidContextNullification,
        Error::LoadingDocumentFailed => Error::LoadingDocumentFailed,
        Error::ProcessingModeConflict => Error::ProcessingModeConflict,
        Error::InvalidContextEntry => Error::InvalidContextEntry,
        Error::InvalidImportValue => Error::InvalidImportValue,
        Error::InvalidRemoteContext => Error::InvalidRemoteContext,
        Error::InvalidBaseIri => Error::InvalidBaseIri,
        Error::InvalidVocabMapping => Error::InvalidVocabMapping,
        Error::CyclicIriMapping => Error::CyclicIriMapping,
        Error::InvalidTermDefinition => Error::InvalidTermDefinition,
        Error::KeywordRedefinition => Error::KeywordRedefinition,
        Error::InvalidProtectedValue => Error::InvalidProtectedValue,
        Error::InvalidTypeMapping => Error::InvalidTypeMapping,
        Error::InvalidReverseProperty => Error::InvalidReverseProperty,
        Error::InvalidIriMapping => Error::InvalidIriMapping,
        Error::InvalidKeywordAlias => Error::InvalidKeywordAlias,
        Error::InvalidContainerMapping => Error::InvalidContainerMapping,
        Error::InvalidScopedContext => Error::InvalidScopedContext,
        Error::ProtectedTermRedefinition => Error::ProtectedTermRedefinition,
        Error::InvalidVersionValue => Error::InvalidVersionValue,
        Error::InvalidPropagateValue => Error::InvalidPropagateValue,
        Error::InvalidBaseDirection => Error::InvalidBaseDirection,
        Error::InvalidDefaultLanguage => Error::InvalidDefaultLanguage,
        Error::InvalidLocalContext => Error::InvalidLocalContext,
        Error::InvalidLanguageMapping => Error::InvalidLanguageMapping,
        Error::InvalidNestValue => Error::InvalidNestValue,
        Error::InvalidPrefixValue => Error::InvalidPrefixValue,
        Error::ContextOverflow => Error::ContextOverflow,
    }
}

/// The result `r` is the error `e`.
pub open spec fn is_error<T>(r: Result<T, Error<CannotLoad>>, e: Error<Seq<char>>) -> bool {
    r matches Err(f) && error_view(f) == e
}

/// Documents, keyed by IRI.
pub struct ContextStore {
    documents: Vec<(String, Json)>,
}

impl View for ContextStore {
    type V = Seq<(Seq<char>, JsonV)>;

    closed spec fn view(&self) -> Seq<(Seq<char>, JsonV)> {
        entries_view(self.documents@)
    }
}

/// The document stored under `iri`, if any (the first one stored).
pub open spec fn store_get(store: Seq<(Seq<char>, JsonV)>, iri: Seq<char>) -> Option<JsonV> {
    entries_get(store, iri)
}

impl ContextStore {
    /// An empty store.
    pub fn new() -> (r: ContextStore)
        ensures
            r@ == Seq::<(Seq<char>, JsonV)>::empty(),
    {
        let r = ContextStore { documents: Vec::new() };
        proof {
            assert(entries_view(r.documents@) =~= Seq::<(Seq<char>, JsonV)>::empty());
        }
        r
    }

    /// Adds a document under the given IRI. A document already stored under
    /// that IRI stays the one that is found.
    pub fn insert(&mut self, iri: String, document: Json)
        ensures
            final(self)@ == old(self)@.push((iri@, document@)),
    {
        let ghost before = self.documents@;
        self.documents.push((iri, document));
        proof {
            assert(self.documents@.drop_last() =~= before);
        }
    }

    /// The number of stored documents.
    pub fn len(&self) -> (r: usize)
        ensures
            r == self@.len(),
    {
        proof {
            lemma_entries_view(self.documents@);
        }
        self.documents.len()
    }

    /// Checks that the store holds no document.
    pub fn is_empty(&self) -> (r: bool)
        ensures
            r == (self@.len() == 0),
    {
        self.len() == 0
    }

    /// The number of JSON values in the store seen as a JSON object from
    /// IRIs to documents, capped at the largest `usize`.
    pub fn size(&self) -> (r: usize)
        ensures
            r as nat == cap(json_size(JsonV::Object(self@))),
    {
        proof {
            lemma_entries_view(self.documents@);
        }
        let ghost whole = JsonV::Object(self@);
        let mut total: usize = 0;
        let mut i: usize = 0;
        while i < self.documents.len()
            invariant
                i <= self.documents@.len(),
                whole == JsonV::Object(entries_view(self.documents@)),
                entries_view(self.documents@).len() == self.documents@.len(),
                forall|k: int| 0 <= k < self.documents@.len() ==> #[trigger] entries_view(self.documents@)[k] == (self.documents@[k].0@, json_view(self.documents@[k].1)),
                total as nat == cap(children_size(whole, i as int)),
            decreases self.documents@.len() - i,
        {
            let n = self.documents[i].1.size();
            total = total.saturating_add(n);
            i = i + 1;
        }
        total.saturating_add(1)
    }

    /// The document stored under `iri`, if any.
    pub fn get(&self, iri: &str) -> (r: Option<&Json>)
        ensures
            r matches Some(d) ==> store_get(self@, iri@) == Some(d@),
            r is None ==> store_get(self@, iri@) is None,
    {
        object_get(&self.documents, iri)
    }
}


/// Documents of a first store, falling back on those of a second one.
pub struct ChainLoader(ContextStore, ContextStore);

impl ChainLoader {
    /// The documents of the first store.
    pub closed spec fn first(&self) -> Seq<(Seq<char>, JsonV)> {
        self.0@
    }

    /// The documents of the second store.
    pub closed spec fn second(&self) -> Seq<(Seq<char>, JsonV)> {
        self.1@
    }

    /// Chains the two stores.
    pub fn new(first: ContextStore, second: ContextStore) -> (r: ChainLoader)
        ensures
            r.first() == first@,
            r.second() == second@,
    {
        ChainLoader(first, second)
    }

    /// The document stored under `iri` in the first store, else in the
    /// second one.
    pub fn get(&self, iri: &str) -> (r: Option<&Json>)
        ensures
            match store_get(self.first(), iri@) {
                Some(d) => r matches Some(x) && x@ == d,
                None => opt_json_ref(r) == store_get(self.second(), iri@),
            },
    {
        match self.0.get(iri) {
            Some(d) => Some(d),
            None => self.1.get(iri),
        }
    }

    /// One store that finds what the chain finds.
    pub fn into_store(self) -> (r: ContextStore)
        ensures
            r@ == self.first() + self.second(),
    {
        let ChainLoader(first, second) = self;
        let mut documents = first.documents;
        let mut rest = second.documents;
        let ghost a = documents@;
        let ghost b = rest@;
        documents.append(&mut rest);
        proof {
            lemma_entries_view_concat(a, b);
        }
        ContextStore { documents }
    }
}

/// The view of an optional reference to a document.
pub open spec fn opt_json_ref(r: Option<&Json>) -> Option<JsonV> {
    match r {
        Some(j) => Some(j@),
        None => None,
    }
}

proof fn lemma_entries_view_concat(a: Seq<(String, Json)>, b: Seq<(String, Json)>)
    ensures
        entries_view(a + b) == entries_view(a) + entries_view(b),
    decreases b.len(),
{
    if b.len() == 0 {
        assert(a + b =~= a);
        assert(entries_view(a) + entries_view(b) =~= entries_view(a));
    } else {
        lemma_entries_view_concat(a, b.drop_last());
        assert((a + b).drop_last() =~= a + b.drop_last());
        assert((a + b).last() == b.last());
        assert(entries_view(a) + entries_view(b) =~= (entries_view(a) + entries_view(b.drop_last())).push((b.last().0@, b.last().1@)));
    }
}

/// Chaining stores: a document of the first store is found first; the
/// second store is searched only for what the first lacks.
pub proof fn lemma_chain_lookup(a: Seq<(Seq<char>, JsonV)>, b: Seq<(Seq<char>, JsonV)>, iri: Seq<char>)
    ensures
        store_get(a + b, iri) == (match store_get(a, iri) {
            Some(d) => Some(d),
            None => store_get(b, iri),
        }),
    decreases a.len(),
{
    if a.len() > 0 {
        assert((a + b).drop_first() =~= a.drop_first() + b);
        assert((a + b)[0] == a[0]);
        lemma_chain_lookup(a.drop_first(), b, iri);
    } else {
        assert(a + b =~= b);
    }
}
} // verus!

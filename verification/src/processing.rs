//! Options and bookkeeping of the context processing algorithm, and IRI
//! expansion against an active context.
use vstd::prelude::*;
use crate::context::{Context, ContextV, TermDefinitionV, opt_str_view};
use crate::error::{Error, Warning, WarningV};
use crate::id::{Reference, ReferenceV, Term, TermV, reference_text};
use crate::iri::{
    iri_valid, iri_ref_valid, resolved_iri, blank_id_valid, reference_of, term_text,
    compact_iri_parts, spec_contains_after_first, check_iri, check_iri_ref, check_blank_id,
    resolve_reference, split_compact_iri, contains_after_first,
};
use crate::syntax::{Keyword, ProcessingMode, keyword_of, spec_is_keyword_like, is_keyword_like};
use crate::text::{str_eq, to_string, concat};

verus! {

/// Options of the context processing algorithm.
#[derive(Clone, Copy, Debug, PartialEq, Eq, Structural)]
pub struct Options {
    /// The processing mode.
    pub processing_mode: ProcessingMode,
    /// Override protected definitions.
    pub override_protected: bool,
    /// Propagate the processed context.
    pub propagate: bool,
}

impl Options {
    /// The same options, with `override_protected` set.
    pub fn with_override(&self) -> (r: Options)
        ensures
            r == (Options { override_protected: true, ..*self }),
    {
        Options { override_protected: true, ..*self }
    }

    /// The same options, with `override_protected` unset.
    pub fn with_no_override(&self) -> (r: Options)
        ensures
            r == (Options { override_protected: false, ..*self }),
    {
        Options { override_protected: false, ..*self }
    }

    /// The same options, with `propagate` unset.
    pub fn without_propagation(&self) -> (r: Options)
        ensures
            r == (Options { propagate: false, ..*self }),
    {
        Options { propagate: false, ..*self }
    }
}

/// The default options: JSON-LD 1.1, no override of protected
/// definitions, propagation.
pub open spec fn default_options() -> Options {
    Options { processing_mode: ProcessingMode::JsonLd1_1, override_protected: false, propagate: true }
}

impl Default for Options {
    fn default() -> (r: Options)
        ensures
            r == default_options(),
    {
        Options { processing_mode: ProcessingMode::JsonLd1_1, override_protected: false, propagate: true }
    }
}

/// The IRIs of the remote contexts being processed, outermost first.
pub struct ProcessingStack {
    stack: Vec<String>,
}

impl View for ProcessingStack {
    type V = Seq<Seq<char>>;

    closed spec fn view(&self) -> Seq<Seq<char>> {
        self.stack@.map_values(|s: String| s@)
    }
}

impl ProcessingStack {
    /// An empty stack.
    pub fn new() -> (r: ProcessingStack)
        ensures
            r@ == Seq::<Seq<char>>::empty(),
    {
        let r = ProcessingStack { stack: Vec::new() };
        proof {
            assert(r@ =~= Seq::<Seq<char>>::empty());
        }
        r
    }

    /// Checks that no remote context is being processed.
    pub fn is_empty(&self) -> (r: bool)
        ensures
            r == (self@.len() == 0),
    {
        self.stack.len() == 0
    }

    /// Checks if `iri` is being processed.
    pub fn cycle(&self, iri: &str) -> (r: bool)
        ensures
            r == self@.contains(iri@),
    {
        let mut i: usize = 0;
        while i < self.stack.len()
            invariant
                i <= self.stack@.len(),
                self@.len() == self.stack@.len(),
                forall|j: int| 0 <= j < i ==> self@[j] != iri@,
            decreases self.stack@.len() - i,
        {
            if str_eq(self.stack[i].as_str(), iri) {
                proof {
                    assert(self@[i as int] == iri@);
                }
                return true;
            }
            i = i + 1;
        }
        false
    }

    /// Pushes `iri` on the stack, unless it is already there: returns `false`
    /// (and leaves the stack as it is) on such a cycle, `true` otherwise.
    pub fn push(&mut self, iri: &str) -> (r: bool)
        ensures
            r == !old(self)@.contains(iri@),
            r ==> final(self)@ == old(self)@.push(iri@),
            !r ==> final(self)@ == old(self)@,
    {
        if self.cycle(iri) {
            false
        } else {
            let ghost before = self.stack@;
            self.stack.push(to_string(iri));
            proof {
                assert(self@ =~= before.map_values(|s: String| s@).push(iri@));
            }
            true
        }
    }

    /// Copies the stack.
    pub fn duplicate(&self) -> (r: ProcessingStack)
        ensures
            r@ == self@,
    {
        let mut out: Vec<String> = Vec::new();
        let mut i: usize = 0;
        while i < self.stack.len()
            invariant
                i <= self.stack@.len(),
                out@.len() == i,
                forall|j: int| 0 <= j < i ==> (#[trigger] out@[j])@ == self.stack@[j]@,
            decreases self.stack@.len() - i,
        {
            out.push(self.stack[i].clone());
            i = i + 1;
        }
        let r = ProcessingStack { stack: out };
        proof {
            assert(r@ =~= self@);
        }
        r
    }
}

/// The terms of a local context whose definition has started (`false`) or
/// is complete (`true`), as a list with each term at most once.
pub open spec fn defined_map(s: Seq<(String, bool)>) -> Map<Seq<char>, bool>
    decreases s.len(),
{
    if s.len() == 0 {
        Map::empty()
    } else {
        defined_map(s.drop_last()).insert(s.last().0@, s.last().1)
    }
}

/// No term occurs twice.
pub open spec fn defined_keys_unique(s: Seq<(String, bool)>) -> bool {
    forall|i: int, j: int| 0 <= i < s.len() && 0 <= j < s.len() && i != j ==> s[i].0@ != s[j].0@
}

proof fn lemma_defined_map(s: Seq<(String, bool)>)
    requires
        defined_keys_unique(s),
    ensures
        forall|i: int| 0 <= i < s.len() ==> #[trigger] defined_map(s).contains_key(s[i].0@)
            && defined_map(s)[s[i].0@] == s[i].1,
        forall|k: Seq<char>| defined_map(s).contains_key(k) ==> exists|i: int| 0 <= i < s.len() && #[trigger] s[i].0@ == k,
    decreases s.len(),
{
    if s.len() > 0 {
        let p = s.drop_last();
        assert(defined_keys_unique(p));
        lemma_defined_map(p);
        assert forall|i: int| 0 <= i < s.len() implies #[trigger] defined_map(s).contains_key(s[i].0@)
            && defined_map(s)[s[i].0@] == s[i].1 by {
            if i < s.len() - 1 {
                assert(p[i] == s[i]);
                assert(defined_map(p).contains_key(p[i].0@));
                assert(s[i].0@ != s.last().0@);
            }
        }
        assert forall|k: Seq<char>| defined_map(s).contains_key(k) implies exists|i: int| 0 <= i < s.len() && #[trigger] s[i].0@ == k by {
            if k != s.last().0@ {
                assert(defined_map(p).contains_key(k));
                let i = choose|i: int| 0 <= i < p.len() && #[trigger] p[i].0@ == k;
                assert(s[i].0@ == k);
            } else {
                assert(s[s.len() - 1].0@ == k);
            }
        }
    }
}

proof fn lemma_defined_map_update(s: Seq<(String, bool)>, i: int, key: String, b: bool)
    requires
        defined_keys_unique(s),
        0 <= i < s.len(),
        key@ == s[i].0@,
    ensures
        defined_map(s.update(i, (key, b))) == defined_map(s).insert(s[i].0@, b),
        defined_keys_unique(s.update(i, (key, b))),
    decreases s.len(),
{
    let u = s.update(i, (key, b));
    let p = s.drop_last();
    assert(defined_keys_unique(p));
    if i == s.len() - 1 {
        assert(u.drop_last() =~= p);
        assert(defined_map(u) =~= defined_map(s).insert(s[i].0@, b));
    } else {
        lemma_defined_map_update(p, i, key, b);
        assert(u.drop_last() =~= p.update(i, (key, b)));
        assert(s.last().0@ != s[i].0@);
        assert(defined_map(u) =~= defined_map(s).insert(s[i].0@, b));
    }
    assert forall|x: int, y: int| 0 <= x < u.len() && 0 <= y < u.len() && x != y implies u[x].0@ != u[y].0@ by {
        assert(u[x].0@ == s[x].0@);
        assert(u[y].0@ == s[y].0@);
    }
}

/// Terms of a local context whose definition has started or is complete.
pub struct DefinedTerms {
    terms: Vec<(String, bool)>,
}

impl View for DefinedTerms {
    type V = Map<Seq<char>, bool>;

    closed spec fn view(&self) -> Map<Seq<char>, bool> {
        defined_map(self.terms@)
    }
}

impl DefinedTerms {
    /// Each term is recorded at most once.
    pub closed spec fn wf(&self) -> bool {
        defined_keys_unique(self.terms@)
    }

    /// No term recorded.
    pub fn new() -> (r: DefinedTerms)
        ensures
            r.wf(),
            r@ == Map::<Seq<char>, bool>::empty(),
    {
        let r = DefinedTerms { terms: Vec::new() };
        proof {
            assert(defined_map(r.terms@) =~= Map::<Seq<char>, bool>::empty());
        }
        r
    }

    /// The state of `term`: `None` if its definition has not started,
    /// `Some(false)` while it is being defined, `Some(true)` once done.
    pub fn get(&self, term: &str) -> (r: Option<bool>)
        requires
            self.wf(),
        ensures
            r == (if self@.contains_key(term@) { Some(self@[term@]) } else { None::<bool> }),
    {
        proof {
            lemma_defined_map(self.terms@);
        }
        let mut i: usize = 0;
        while i < self.terms.len()
            invariant
                i <= self.terms@.len(),
                defined_keys_unique(self.terms@),
                forall|j: int| 0 <= j < i ==> self.terms@[j].0@ != term@,
            decreases self.terms@.len() - i,
        {
            if str_eq(self.terms[i].0.as_str(), term) {
                proof {
                    lemma_defined_map(self.terms@);
                    assert(defined_map(self.terms@).contains_key(self.terms@[i as int].0@));
                }
                return Some(self.terms[i].1);
            }
            i = i + 1;
        }
        proof {
            lemma_defined_map(self.terms@);
            if defined_map(self.terms@).contains_key(term@) {
                let j = choose|j: int| 0 <= j < self.terms@.len() && #[trigger] self.terms@[j].0@ == term@;
                assert(self.terms@[j].0@ != term@);
            }
        }
        None
    }

    /// Records the state of `term`.
    pub fn set(&mut self, term: &str, done: bool)
        requires
            old(self).wf(),
        ensures
            final(self).wf(),
            final(self)@ == old(self)@.insert(term@, done),
    {
        proof {
            lemma_defined_map(self.terms@);
        }
        let mut i: usize = 0;
        while i < self.terms.len()
            invariant
                i <= self.terms@.len(),
                self.terms@ == old(self).terms@,
                defined_keys_unique(self.terms@),
                forall|j: int| 0 <= j < i ==> self.terms@[j].0@ != term@,
            decreases self.terms@.len() - i,
        {
            if str_eq(self.terms[i].0.as_str(), term) {
                let ghost before = self.terms@;
                let key = self.terms[i].0.clone();
                proof {
                    lemma_defined_map_update(before, i as int, key, done);
                }
                self.terms.set(i, (key, done));
                return;
            }
            i = i + 1;
        }
        let ghost before = self.terms@;
        self.terms.push((to_string(term), done));
        proof {
            lemma_defined_map(before);
            assert(self.terms@.drop_last() =~= before);
            assert(defined_map(self.terms@) == defined_map(before).insert(term@, done));
            assert forall|a: int, b: int| 0 <= a < self.terms@.len() && 0 <= b < self.terms@.len() && a != b
                implies self.terms@[a].0@ != self.terms@[b].0@ by {
                if a < before.len() && b < before.len() {
                    assert(self.terms@[a] == before[a]);
                    assert(self.terms@[b] == before[b]);
                } else if a < before.len() {
                    assert(self.terms@[a] == before[a]);
                } else {
                    assert(self.terms@[b] == before[b]);
                }
            }
        }
    }
}

impl DefinedTerms {
    /// Starts the definition of `term`: fails with a cyclic IRI mapping
    /// while `term` is being defined, gives `false` once it is done, and
    /// otherwise records `term` as being defined and gives `true`.
    pub fn begin<E>(&mut self, term: &str) -> (r: Result<bool, Error<E>>)
        requires
            old(self).wf(),
        ensures
            final(self).wf(),
            match old(self)@.get(term@) {
                Some(false) => r == Err::<bool, Error<E>>(Error::CyclicIriMapping) && final(self)@ == old(self)@,
                Some(true) => r == Ok::<bool, Error<E>>(false) && final(self)@ == old(self)@,
                None => r == Ok::<bool, Error<E>>(true) && final(self)@ == old(self)@.insert(term@, false),
            },
    {
        match self.get(term) {
            Some(true) => Ok(false),
            Some(false) => Err(Error::CyclicIriMapping),
            None => {
                self.set(term, false);
                Ok(true)
            },
        }
    }

    /// Marks the definition of `term`, which has begun, as done.
    pub fn end(&mut self, term: &str)
        requires
            old(self).wf(),
            old(self)@.contains_key(term@),
        ensures
            final(self).wf(),
            final(self)@ == old(self)@.insert(term@, true),
    {
        self.set(term, true);
    }
}

/// The warnings of a list, as values.
pub open spec fn warnings_view(w: Seq<Warning>) -> Seq<WarningV> {
    w.map_values(|x: Warning| x@)
}

/// Appends a warning.
pub fn push_warning(warnings: &mut Vec<Warning>, w: Warning)
    ensures
        warnings_view(final(warnings)@) == warnings_view(old(warnings)@).push(w@),
{
    let ghost before = warnings@;
    warnings.push(w);
    proof {
        assert(warnings_view(warnings@) =~= warnings_view(before).push(w@));
    }
}

/// The IRI that `value` denotes relatively to the base IRI `base`: `None`
/// if `value` is not an IRI reference, or if there is no base IRI and
/// `value` is not an IRI. A base that is not an IRI counts as no base.
pub open spec fn resolve_spec(value: Seq<char>, base: Option<Seq<char>>) -> Option<Seq<char>> {
    if !iri_ref_valid(value) {
        None
    } else {
        match base {
            Some(b) => if iri_valid(b) {
                Some(resolved_iri(value, b))
            } else if iri_valid(value) {
                Some(value)
            } else {
                None
            },
            None => if iri_valid(value) {
                Some(value)
            } else {
                None
            },
        }
    }
}

/// Resolves `value` against the base IRI `base`.
pub fn resolve_iri(value: &str, base: Option<&String>) -> (r: Option<String>)
    ensures
        opt_str_view(r) == resolve_spec(value@, opt_str_view(match base { Some(b) => Some(*b), None => None })),
{
    if !check_iri_ref(value) {
        return None;
    }
    match base {
        Some(b) => {
            if check_iri(b.as_str()) {
                Some(resolve_reference(value, b.as_str()))
            } else if check_iri(value) {
                Some(to_string(value))
            } else {
                None
            }
        },
        None => {
            if check_iri(value) {
                Some(to_string(value))
            } else {
                None
            }
        },
    }
}

/// Expansion of `value` by the definition of `value` in `ctx`, if that
/// decides it: a keyword mapping, or with `vocab` any mapping (`null` when
/// the definition has none).
pub open spec fn expand_by_definition(ctx: ContextV, value: Seq<char>, vocab: bool) -> Option<TermV> {
    if ctx.definitions.contains_key(value) {
        let d = ctx.definitions[value];
        match d.value {
            Some(TermV::Keyword(k)) => Some(TermV::Keyword(k)),
            Some(t) => if vocab { Some(t) } else { None },
            None => if vocab { Some(TermV::Null) } else { None },
        }
    } else {
        None
    }
}

/// Expansion of a value with a colon after its first character, before any
/// prefix is considered: a blank node identifier, or `_:` alone (invalid).
pub open spec fn expand_blank(value: Seq<char>) -> Option<TermV> {
    if blank_id_valid(value) {
        Some(TermV::Ref(ReferenceV::Blank(value)))
    } else if value == seq!['_', ':'] {
        Some(TermV::Ref(ReferenceV::Invalid(value)))
    } else {
        None
    }
}

/// Expansion of a compact IRI by the definition of its prefix in `ctx`, if
/// that prefix is defined with the prefix flag and a mapping.
pub open spec fn expand_compact(ctx: ContextV, value: Seq<char>) -> Option<TermV> {
    match compact_iri_parts(value) {
        Some((prefix, suffix)) => {
            if ctx.definitions.contains_key(prefix) && ctx.definitions[prefix].prefix
                && ctx.definitions[prefix].value is Some {
                Some(TermV::Ref(reference_of(term_text(ctx.definitions[prefix].value->0) + suffix)))
            } else {
                None
            }
        },
        None => None,
    }
}

/// The last steps of IRI expansion: concatenation with the vocabulary
/// mapping (with `vocab`), resolution against the base IRI (with
/// `document_relative`), else an invalid reference with a warning.
pub open spec fn expand_tail(ctx: ContextV, value: Seq<char>, document_relative: bool, vocab: bool) -> (TermV, Option<WarningV>) {
    let invalid = (TermV::Ref(ReferenceV::Invalid(value)), Some(WarningV::MalformedIri(value)));
    if vocab && ctx.vocabulary is Some {
        match ctx.vocabulary->0 {
            TermV::Ref(m) => (TermV::Ref(reference_of(reference_text(m) + value)), None),
            _ => invalid,
        }
    } else if document_relative && resolve_spec(value, ctx.base_iri) is Some {
        (TermV::Ref(ReferenceV::Id(resolve_spec(value, ctx.base_iri)->0)), None)
    } else {
        invalid
    }
}

/// IRI expansion of `value` against the active context `ctx`, with the
/// warning it raises, if any.
pub open spec fn expand_iri_simple_spec(ctx: ContextV, value: Seq<char>, document_relative: bool, vocab: bool) -> (TermV, Option<WarningV>) {
    if keyword_of(value) is Some {
        (TermV::Keyword(keyword_of(value)->0), None)
    } else if spec_is_keyword_like(value) {
        (TermV::Null, Some(WarningV::KeywordLikeValue(value)))
    } else if expand_by_definition(ctx, value, vocab) is Some {
        (expand_by_definition(ctx, value, vocab)->0, None)
    } else if spec_contains_after_first(value, ':') && expand_blank(value) is Some {
        (expand_blank(value)->0, None)
    } else if spec_contains_after_first(value, ':') && expand_compact(ctx, value) is Some {
        (expand_compact(ctx, value)->0, None)
    } else if spec_contains_after_first(value, ':') && iri_valid(value) {
        (TermV::Ref(ReferenceV::Id(value)), None)
    } else {
        expand_tail(ctx, value, document_relative, vocab)
    }
}

/// Expansion of `value` by its definition in `ctx`.
pub fn expand_defined(ctx: &Context, value: &str, vocab: bool) -> (r: Option<Term>)
    requires
        ctx.wf(),
    ensures
        opt_term(r) == expand_by_definition(ctx@, value@, vocab),
{
    match ctx.get(value) {
        Some(d) => match &d.value {
            Some(Term::Keyword(k)) => Some(Term::Keyword(*k)),
            Some(t) => if vocab { Some(t.duplicate()) } else { None },
            None => if vocab { Some(Term::Null) } else { None },
        },
        None => None,
    }
}

/// The view of an optional term.
pub open spec fn opt_term(t: Option<Term>) -> Option<TermV> {
    match t {
        Some(t) => Some(t@),
        None => None,
    }
}

/// Expansion of a blank node identifier, or of `_:` alone.
pub fn expand_blank_exec(value: &str) -> (r: Option<Term>)
    ensures
        opt_term(r) == expand_blank(value@),
{
    if check_blank_id(value) {
        Some(Term::Ref(Reference::Blank(to_string(value))))
    } else if str_eq(value, "_:") {
        proof {
            reveal_strlit("_:");
            assert("_:"@ =~= seq!['_', ':']);
        }
        Some(Term::Ref(Reference::Invalid(to_string(value))))
    } else {
        proof {
            reveal_strlit("_:");
            assert("_:"@ =~= seq!['_', ':']);
        }
        None
    }
}

/// Expansion of a compact IRI by its prefix definition in `ctx`.
pub fn expand_compact_exec(ctx: &Context, value: &str) -> (r: Option<Term>)
    requires
        ctx.wf(),
    ensures
        opt_term(r) == expand_compact(ctx@, value@),
{
    match split_compact_iri(value) {
        Some((prefix, suffix)) => {
            match ctx.get(prefix) {
                Some(d) => {
                    if d.prefix {
                        match &d.value {
                            Some(m) => {
                                let text = concat(m.as_str(), suffix);
                                Some(Term::Ref(Reference::from_string(text)))
                            },
                            None => None,
                        }
                    } else {
                        None
                    }
                },
                None => None,
            }
        },
        None => None,
    }
}

/// The last steps of IRI expansion (see [`expand_tail`]).
pub fn expand_tail_exec(ctx: &Context, value: &str, document_relative: bool, vocab: bool) -> (r: (Term, Option<Warning>))
    requires
        ctx.wf(),
    ensures
        (r.0@, match r.1 { Some(w) => Some(w@), None => None }) == expand_tail(ctx@, value@, document_relative, vocab),
{
    if vocab {
        match ctx.vocabulary() {
            Some(Term::Ref(m)) => {
                let text = concat(m.as_str(), value);
                return (Term::Ref(Reference::from_string(text)), None);
            },
            Some(_) => {
                return (Term::Ref(Reference::Invalid(to_string(value))), Some(Warning::MalformedIri(to_string(value))));
            },
            None => {},
        }
    }
    if document_relative {
        match resolve_iri(value, ctx.base_iri()) {
            Some(iri) => {
                return (Term::Ref(Reference::Id(iri)), None);
            },
            None => {},
        }
    }
    (Term::Ref(Reference::Invalid(to_string(value))), Some(Warning::MalformedIri(to_string(value))))
}

/// Expands `value` against the active context `ctx`: a keyword, a term
/// defined in `ctx`, a blank node identifier, a compact IRI, an IRI, a term
/// relative to the vocabulary mapping (with `vocab`) or a reference relative
/// to the base IRI (with `document_relative`). Returns the warning raised
/// when the result is an invalid reference.
pub fn expand_iri_simple(ctx: &Context, value: &str, document_relative: bool, vocab: bool) -> (r: (Term, Option<Warning>))
    requires
        ctx.wf(),
    ensures
        (r.0@, match r.1 { Some(w) => Some(w@), None => None }) == expand_iri_simple_spec(ctx@, value@, document_relative, vocab),
{
    match Keyword::try_from_str(value) {
        Some(k) => {
            return (Term::Keyword(k), None);
        },
        None => {},
    }
    if is_keyword_like(value) {
        return (Term::Null, Some(Warning::KeywordLikeValue(to_string(value))));
    }
    match expand_defined(ctx, value, vocab) {
        Some(t) => {
            return (t, None);
        },
        None => {},
    }
    if contains_after_first(value, ':') {
        match expand_blank_exec(value) {
            Some(t) => {
                return (t, None);
            },
            None => {},
        }
        match expand_compact_exec(ctx, value) {
            Some(t) => {
                return (t, None);
            },
            None => {},
        }
        if check_iri(value) {
            return (Term::Ref(Reference::Id(to_string(value))), None);
        }
    }
    expand_tail_exec(ctx, value, document_relative, vocab)
}


/// A keyword expands to itself, whatever the active context.
pub proof fn lemma_keyword_expands_to_itself(ctx: ContextV, value: Seq<char>, document_relative: bool, vocab: bool)
    requires
        keyword_of(value) is Some,
    ensures
        expand_iri_simple_spec(ctx, value, document_relative, vocab) == (TermV::Keyword(keyword_of(value)->0), None::<WarningV>),
{
}

/// A string that has the form of a keyword without being one expands to
/// `null`, with a warning that names it.
pub proof fn lemma_keyword_like_expands_to_null(ctx: ContextV, value: Seq<char>, document_relative: bool, vocab: bool)
    requires
        keyword_of(value) is None,
        spec_is_keyword_like(value),
    ensures
        expand_iri_simple_spec(ctx, value, document_relative, vocab) == (TermV::Null, Some(WarningV::KeywordLikeValue(value))),
{
}

/// A term defined in the active context with a mapping expands, with
/// `vocab`, to that mapping.
pub proof fn lemma_defined_term_expands_to_mapping(ctx: ContextV, value: Seq<char>, document_relative: bool, t: TermV)
    requires
        keyword_of(value) is None,
        !spec_is_keyword_like(value),
        ctx.definitions.contains_key(value),
        ctx.definitions[value].value == Some(t),
    ensures
        expand_iri_simple_spec(ctx, value, document_relative, true) == (t, None::<WarningV>),
{
}
/// Without `vocab`, a term of the active context is not replaced by its
/// IRI mapping (unless that mapping is a keyword): a document-relative
/// value that resolves against the base IRI expands to the resolved IRI.
pub proof fn lemma_term_mapping_needs_vocab(ctx: ContextV, value: Seq<char>, r: Seq<char>)
    requires
        keyword_of(value) is None,
        !spec_is_keyword_like(value),
        !spec_contains_after_first(value, ':'),
        !(ctx.definitions.contains_key(value) && ctx.definitions[value].value matches Some(TermV::Keyword(_))),
        resolve_spec(value, ctx.base_iri) == Some(r),
    ensures
        expand_iri_simple_spec(ctx, value, true, false) == (TermV::Ref(ReferenceV::Id(r)), None::<WarningV>),
{
}

/// With `vocab`, a term of the active context that is not a keyword and
/// whose IRI mapping is not `null` expands to that mapping, with no warning.
pub proof fn lemma_term_mapping_with_vocab(ctx: ContextV, value: Seq<char>, document_relative: bool, t: TermV)
    requires
        keyword_of(value) is None,
        !spec_is_keyword_like(value),
        ctx.definitions.contains_key(value),
        ctx.definitions[value].value == Some(t),
    ensures
        expand_iri_simple_spec(ctx, value, document_relative, true) == (t, None::<WarningV>),
{
}

} // verus!

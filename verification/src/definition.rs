//! The steps of the term definition algorithm that make no recursive call:
//! checks on the value of a term definition and the parts of the definition
//! built from it alone.
use vstd::prelude::*;
use crate::container::{Container, container_kinds, container_with};
use crate::context::{
    Context, ContextV, TermDefinition, TermDefinitionV, Type, TypeV, type_of_term,
    same_modulo_protected, context_set,
};
use crate::error::{Error, Warning, WarningV};
use crate::id::{Reference, ReferenceV, Term, TermV};
use crate::iri::{language_tag_valid, check_language_tag};
use crate::json::{Json, JsonV, entries_get, entries_view, object_get, as_array, json_seq_view, lemma_json_seq_view, lemma_entries_view};
use crate::loader::{CannotLoad, error_view, is_error};
use crate::nullable::Nullable;
use crate::processing::{Options, DefinedTerms, expand_iri_simple_spec, expand_iri_simple, warnings_view, push_warning};
use crate::syntax::{ContainerKind, Direction, Keyword, ProcessingMode, container_kind_of, spec_is_keyword, spec_is_keyword_like, is_keyword, is_keyword_like};
use crate::text::{str_eq, contains_char, to_string};

verus! {

/// The state threaded through the definition of the terms of a local
/// context: the active context being built, the terms whose definition has
/// started or is complete, and the warnings raised so far.
pub struct DefStateV {
    pub ctx: ContextV,
    pub defined: Map<Seq<char>, bool>,
    pub warnings: Seq<WarningV>,
}

/// The state threaded through the definition of the terms of a local context.
pub struct DefState {
    pub context: Context,
    pub defined: DefinedTerms,
    pub warnings: Vec<Warning>,
}

impl DefState {
    /// The active context and the defined terms are well formed.
    pub open spec fn wf(&self) -> bool {
        self.context.wf() && self.defined.wf()
    }
}

impl View for DefState {
    type V = DefStateV;

    open spec fn view(&self) -> DefStateV {
        DefStateV { ctx: self.context@, defined: self.defined@, warnings: warnings_view(self.warnings@) }
    }
}

/// The view of an optional JSON value.
pub open spec fn opt_json(r: Option<&Json>) -> Option<JsonV> {
    match r {
        Some(j) => Some(j@),
        None => None,
    }
}

/// The `@id` of a term definition value: the value itself when it is `null`
/// or a string (a simple definition), else its `@id` entry.
pub open spec fn value_id(v: JsonV) -> Option<JsonV> {
    match v {
        JsonV::Null => Some(JsonV::Null),
        JsonV::String(s) => Some(JsonV::String(s)),
        JsonV::Object(o) => entries_get(o, "@id"@),
        _ => None,
    }
}

/// The `@id` of a term definition value.
pub fn value_id_exec(v: &Json) -> (r: Option<&Json>)
    ensures
        opt_json(r) == value_id(v@),
{
    match v {
        Json::Null => Some(v),
        Json::String(_) => Some(v),
        Json::Object(o) => object_get(o, "@id"),
        _ => None,
    }
}

/// An entry other than `@id` of a term definition value: simple
/// definitions have none.
pub open spec fn value_get(v: JsonV, key: Seq<char>) -> Option<JsonV> {
    match v {
        JsonV::Object(o) => entries_get(o, key),
        _ => None,
    }
}

/// An entry other than `@id` of a term definition value.
pub fn value_get_exec<'a>(v: &'a Json, key: &str) -> (r: Option<&'a Json>)
    ensures
        opt_json(r) == value_get(v@, key@),
{
    match v {
        Json::Object(o) => object_get(o, key),
        _ => None,
    }
}

/// An entry allowed in the redefinition of `@type`.
pub open spec fn type_entry_ok(e: (Seq<char>, JsonV)) -> bool {
    (e.0 == "@container"@ && e.1 == JsonV::String("@set"@)) || e.0 == "@protected"@
}

/// The checks on the term itself: `Ok(true)` to go on defining it,
/// `Ok(false)` when the term has the form of a keyword and is left
/// undefined (with a warning).
pub open spec fn keyword_check(term: Seq<char>, value: JsonV, opts: Options) -> Result<bool, Error<Seq<char>>> {
    if term == "@type"@ {
        if opts.processing_mode == ProcessingMode::JsonLd1_0 {
            Err(Error::KeywordRedefinition)
        } else {
            match value {
                JsonV::Object(o) => if o.len() > 0 && forall|i: int| 0 <= i < o.len() ==> #[trigger] type_entry_ok(o[i]) {
                    Ok(true)
                } else {
                    Err(Error::KeywordRedefinition)
                },
                _ => Err(Error::KeywordRedefinition),
            }
        }
    } else if spec_is_keyword(term) {
        Err(Error::KeywordRedefinition)
    } else if spec_is_keyword_like(term) {
        Ok(false)
    } else {
        Ok(true)
    }
}

/// The view of a boolean result.
pub open spec fn bool_result(r: Result<bool, Error<CannotLoad>>) -> Result<bool, Error<Seq<char>>> {
    match r {
        Ok(b) => Ok(b),
        Err(e) => Err(error_view(e)),
    }
}

/// The checks on the term itself (see [`keyword_check`]).
pub fn keyword_check_exec(term: &str, value: &Json, opts: Options) -> (r: Result<bool, Error<CannotLoad>>)
    ensures
        bool_result(r) == keyword_check(term@, value@, opts),
{
    if str_eq(term, "@type") {
        if opts.processing_mode == ProcessingMode::JsonLd1_0 {
            return Err(Error::KeywordRedefinition);
        }
        match value {
            Json::Object(o) => {
                proof {
                    lemma_entries_view(o@);
                }
                if o.len() == 0 {
                    return Err(Error::KeywordRedefinition);
                }
                let mut i: usize = 0;
                while i < o.len()
                    invariant
                        i <= o@.len(),
                        entries_view(o@).len() == o@.len(),
                        forall|j: int| 0 <= j < o@.len() ==> #[trigger] entries_view(o@)[j] == (o@[j].0@, o@[j].1@),
                        forall|j: int| 0 <= j < i ==> #[trigger] type_entry_ok(entries_view(o@)[j]),
                        value@ == JsonV::Object(entries_view(o@)),
                        term@ == "@type"@,
                        opts.processing_mode != ProcessingMode::JsonLd1_0,
                    decreases o@.len() - i,
                {
                    let key_container = str_eq(o[i].0.as_str(), "@container");
                    let key_protected = str_eq(o[i].0.as_str(), "@protected");
                    let value_set = match &o[i].1 {
                        Json::String(s) => str_eq(s.as_str(), "@set"),
                        _ => false,
                    };
                    proof {
                        assert(value_set == (o@[i as int].1@ == JsonV::String("@set"@)));
                    }
                    if !((key_container && value_set) || key_protected) {
                        proof {
                            assert(!type_entry_ok(entries_view(o@)[i as int]));
                            assert(JsonV::Object(entries_view(o@))->Object_0 == entries_view(o@));
                        }
                        return Err(Error::KeywordRedefinition);
                    }
                    i = i + 1;
                }
                Ok(true)
            },
            _ => Err(Error::KeywordRedefinition),
        }
    } else if is_keyword(term) {
        Err(Error::KeywordRedefinition)
    } else if is_keyword_like(term) {
        Ok(false)
    } else {
        Ok(true)
    }
}

/// The value of a term definition is `null`, a string (a simple term,
/// `Ok(true)`) or an object (`Ok(false)`).
pub open spec fn wrap_check(value: JsonV) -> Result<bool, Error<Seq<char>>> {
    match value {
        JsonV::Null => Ok(true),
        JsonV::String(_) => Ok(true),
        JsonV::Object(_) => Ok(false),
        _ => Err(Error::InvalidTermDefinition),
    }
}

/// Checks the kind of a term definition value (see [`wrap_check`]).
pub fn wrap_check_exec(value: &Json) -> (r: Result<bool, Error<CannotLoad>>)
    ensures
        bool_result(r) == wrap_check(value@),
{
    match value {
        Json::Null => Ok(true),
        Json::String(_) => Ok(true),
        Json::Object(_) => Ok(false),
        _ => Err(Error::InvalidTermDefinition),
    }
}

/// The protected flag of a new definition: its `@protected` entry, which
/// must be a boolean (and JSON-LD 1.1), else the flag of the local context.
pub open spec fn protected_value(value: JsonV, protected: bool, opts: Options) -> Result<bool, Error<Seq<char>>> {
    match value_get(value, "@protected"@) {
        None => Ok(protected),
        Some(JsonV::Boolean(b)) => if opts.processing_mode == ProcessingMode::JsonLd1_0 {
            Err(Error::InvalidTermDefinition)
        } else {
            Ok(b)
        },
        Some(_) => Err(Error::InvalidProtectedValue),
    }
}

/// The protected flag of a new definition (see [`protected_value`]).
pub fn protected_value_exec(value: &Json, protected: bool, opts: Options) -> (r: Result<bool, Error<CannotLoad>>)
    ensures
        bool_result(r) == protected_value(value@, protected, opts),
{
    match value_get_exec(value, "@protected") {
        None => Ok(protected),
        Some(Json::Boolean(b)) => if opts.processing_mode == ProcessingMode::JsonLd1_0 {
            Err(Error::InvalidTermDefinition)
        } else {
            Ok(*b)
        },
        Some(_) => Err(Error::InvalidProtectedValue),
    }
}

/// The type mapping given by the expansion `typ` of an `@type` entry.
pub open spec fn type_mapping(typ: TermV, opts: Options) -> Result<TypeV, Error<Seq<char>>> {
    if opts.processing_mode == ProcessingMode::JsonLd1_0
        && (typ == TermV::Keyword(Keyword::Json) || typ == TermV::Keyword(Keyword::NoneKw)) {
        Err(Error::InvalidTypeMapping)
    } else {
        match type_of_term(typ) {
            Some(t) => Ok(t),
            None => Err(Error::InvalidTypeMapping),
        }
    }
}

/// The type mapping given by the expansion of an `@type` entry.
pub fn type_mapping_exec(typ: Term, opts: Options) -> (r: Result<Type, Error<CannotLoad>>)
    ensures
        match type_mapping(typ@, opts) {
            Ok(t) => r matches Ok(u) && u@ == t,
            Err(e) => is_error(r, e),
        },
{
    if opts.processing_mode == ProcessingMode::JsonLd1_0 {
        match typ {
            Term::Keyword(Keyword::Json) => {
                return Err(Error::InvalidTypeMapping);
            },
            Term::Keyword(Keyword::NoneKw) => {
                return Err(Error::InvalidTypeMapping);
            },
            _ => {},
        }
    }
    match Type::try_from_term(typ) {
        Some(t) => Ok(t),
        None => Err(Error::InvalidTypeMapping),
    }
}

/// The container of a reverse property: none, `@set` or `@index`.
pub open spec fn reverse_container(cv: Option<JsonV>) -> Result<Container, Error<Seq<char>>> {
    match cv {
        None => Ok(Container::Empty),
        Some(JsonV::Null) => Ok(Container::Empty),
        Some(JsonV::String(s)) => match container_kind_of(s) {
            Some(ContainerKind::SetKind) => Ok(Container::SetOnly),
            Some(ContainerKind::Index) => Ok(Container::Index),
            _ => Err(Error::InvalidReverseProperty),
        },
        Some(_) => Err(Error::InvalidReverseProperty),
    }
}

/// The container of a reverse property (see [`reverse_container`]).
pub fn reverse_container_exec(cv: Option<&Json>) -> (r: Result<Container, Error<CannotLoad>>)
    ensures
        match reverse_container(opt_json(cv)) {
            Ok(c) => r == Ok::<Container, Error<CannotLoad>>(c),
            Err(e) => is_error(r, e),
        },
{
    match cv {
        None => Ok(Container::Empty),
        Some(Json::Null) => Ok(Container::Empty),
        Some(Json::String(s)) => match ContainerKind::try_from_str(s.as_str()) {
            Some(ContainerKind::SetKind) => Ok(Container::SetOnly),
            Some(ContainerKind::Index) => Ok(Container::Index),
            _ => Err(Error::InvalidReverseProperty),
        },
        Some(_) => Err(Error::InvalidReverseProperty),
    }
}

/// The container obtained by adding to `c` the kind named by each item, in
/// turn; `None` if an item is not a string naming a container kind, or its
/// kind cannot be added.
pub open spec fn container_add_all(c: Container, items: Seq<JsonV>) -> Option<Container>
    decreases items.len(),
{
    if items.len() == 0 {
        Some(c)
    } else {
        match items[0] {
            JsonV::String(s) => match container_kind_of(s) {
                Some(k) => match container_with(c, k) {
                    Some(c2) => container_add_all(c2, items.drop_first()),
                    None => None,
                },
                None => None,
            },
            _ => None,
        }
    }
}

/// Adds the kind named by one item to a container.
fn container_add_one(c: Container, item: &Json) -> (r: Option<Container>)
    ensures
        r == (match item@ {
            JsonV::String(s) => match container_kind_of(s) {
                Some(k) => container_with(c, k),
                None => None,
            },
            _ => None,
        }),
{
    match item {
        Json::String(s) => match ContainerKind::try_from_str(s.as_str()) {
            Some(k) => c.with(k),
            None => None,
        },
        _ => None,
    }
}

/// Adds the kinds named by the items of a list to a container.
fn container_add_items(c: Container, items: &Vec<Json>) -> (r: Option<Container>)
    ensures
        r == container_add_all(c, json_seq_view(items@)),
{
    proof {
        lemma_json_seq_view(items@);
    }
    let ghost all = json_seq_view(items@);
    proof {
        assert(all.subrange(0, all.len() as int) =~= all);
    }
    let mut cur = c;
    let mut i: usize = 0;
    while i < items.len()
        invariant
            i <= items@.len(),
            all == json_seq_view(items@),
            all.len() == items@.len(),
            forall|j: int| 0 <= j < items@.len() ==> #[trigger] all[j] == items@[j]@,
            container_add_all(c, all) == container_add_all(cur, all.subrange(i as int, all.len() as int)),
        decreases items@.len() - i,
    {
        let ghost rest = all.subrange(i as int, all.len() as int);
        proof {
            assert(rest[0] == all[i as int]);
            assert(rest.drop_first() =~= all.subrange(i + 1, all.len() as int));
        }
        match container_add_one(cur, &items[i]) {
            Some(c2) => {
                cur = c2;
            },
            None => {
                proof {
                    assert(rest.len() > 0);
                    assert(rest[0] == items@[i as int]@);
                    assert(container_add_all(cur, rest) is None);
                    assert(rest == all.subrange(i as int, all.len() as int));
                    assert(container_add_all(c, all) is None);
                }
                return None;
            },
        }
        i = i + 1;
    }
    proof {
        assert(all.subrange(i as int, all.len() as int) =~= Seq::<JsonV>::empty());
    }
    Some(cur)
}

/// The container mapping of a definition, from its `@container` entry.
pub open spec fn container_step(value: JsonV, def: TermDefinitionV, opts: Options) -> Result<TermDefinitionV, Error<Seq<char>>> {
    match value_get(value, "@container"@) {
        None => Ok(def),
        Some(cv) => {
            if opts.processing_mode == ProcessingMode::JsonLd1_0 && !(cv matches JsonV::String(s)
                && s != "@graph"@ && s != "@id"@ && s != "@type"@) {
                Err(Error::InvalidContainerMapping)
            } else {
                match container_add_all(def.container, as_array(cv)) {
                    None => Err(Error::InvalidContainerMapping),
                    Some(c) => {
                        let d2 = TermDefinitionV { container: c, ..def };
                        if container_kinds(c).contains(ContainerKind::Type) {
                            match d2.typ {
                                Some(TypeV::Id) => Ok(d2),
                                Some(TypeV::Vocab) => Ok(d2),
                                Some(_) => Err(Error::InvalidTypeMapping),
                                None => Ok(TermDefinitionV { typ: Some(TypeV::Id), ..d2 }),
                            }
                        } else {
                            Ok(d2)
                        }
                    },
                }
            }
        },
    }
}

/// Sets the container mapping of a definition (see [`container_step`]).
pub fn container_step_exec(value: &Json, def: &mut TermDefinition, opts: Options) -> (r: Result<(), Error<CannotLoad>>)
    ensures
        match container_step(value@, old(def)@, opts) {
            Ok(d) => r is Ok && final(def)@ == d,
            Err(e) => is_error(r, e),
        },
{
    match value_get_exec(value, "@container") {
        None => Ok(()),
        Some(cv) => {
            if opts.processing_mode == ProcessingMode::JsonLd1_0 {
                let ok = match cv {
                    Json::String(s) => !str_eq(s.as_str(), "@graph") && !str_eq(s.as_str(), "@id")
                        && !str_eq(s.as_str(), "@type"),
                    _ => false,
                };
                if !ok {
                    return Err(Error::InvalidContainerMapping);
                }
            }
            let added = match cv {
                Json::Array(items) => container_add_items(def.container, items),
                _ => {
                    let r = container_add_one(def.container, cv);
                    proof {
                        let one = seq![cv@];
                        assert(one.drop_first() =~= Seq::<JsonV>::empty());
                        reveal_with_fuel(container_add_all, 2);
                    }
                    r
                },
            };
            match added {
                None => Err(Error::InvalidContainerMapping),
                Some(c) => {
                    def.container = c;
                    if c.contains(ContainerKind::Type) {
                        match &def.typ {
                            Some(Type::Id) => Ok(()),
                            Some(Type::Vocab) => Ok(()),
                            Some(_) => Err(Error::InvalidTypeMapping),
                            None => {
                                def.typ = Some(Type::Id);
                                Ok(())
                            },
                        }
                    } else {
                        Ok(())
                    }
                },
            }
        },
    }
}

/// The index mapping of a definition, from its `@index` entry: a string
/// that expands to an IRI, for a container that includes `@index`.
pub open spec fn index_step(ctx: ContextV, value: JsonV, def: TermDefinitionV, opts: Options) -> Result<TermDefinitionV, Error<Seq<char>>> {
    match value_get(value, "@index"@) {
        None => Ok(def),
        Some(iv) => if !container_kinds(def.container).contains(ContainerKind::Index)
            || opts.processing_mode == ProcessingMode::JsonLd1_0 {
            Err(Error::InvalidTermDefinition)
        } else {
            match iv {
                JsonV::String(idx) => match expand_iri_simple_spec(ctx, idx, false, true).0 {
                    TermV::Ref(ReferenceV::Id(_)) => Ok(TermDefinitionV { index: Some(idx), ..def }),
                    _ => Err(Error::InvalidTermDefinition),
                },
                _ => Err(Error::InvalidTermDefinition),
            }
        },
    }
}

/// Sets the index mapping of a definition (see [`index_step`]).
pub fn index_step_exec(ctx: &Context, value: &Json, def: &mut TermDefinition, opts: Options) -> (r: Result<(), Error<CannotLoad>>)
    requires
        ctx.wf(),
    ensures
        match index_step(ctx@, value@, old(def)@, opts) {
            Ok(d) => r is Ok && final(def)@ == d,
            Err(e) => is_error(r, e),
        },
{
    match value_get_exec(value, "@index") {
        None => Ok(()),
        Some(iv) => {
            if !def.container.contains(ContainerKind::Index) || opts.processing_mode == ProcessingMode::JsonLd1_0 {
                return Err(Error::InvalidTermDefinition);
            }
            match iv {
                Json::String(idx) => {
                    let (t, _) = expand_iri_simple(ctx, idx.as_str(), false, true);
                    match t {
                        Term::Ref(Reference::Id(_)) => {
                            def.index = Some(idx.clone());
                            Ok(())
                        },
                        _ => Err(Error::InvalidTermDefinition),
                    }
                },
                _ => Err(Error::InvalidTermDefinition),
            }
        },
    }
}

/// The language mapping (`@language`) of a definition, with the warning for
/// a malformed language tag.
pub open spec fn language_step(value: JsonV, def: TermDefinitionV, w: Seq<WarningV>) -> Result<(TermDefinitionV, Seq<WarningV>), Error<Seq<char>>> {
    match value_get(value, "@language"@) {
        None => Ok((def, w)),
        Some(JsonV::Null) => Ok((TermDefinitionV { language: Some(Nullable::Null), ..def }, w)),
        Some(JsonV::String(l)) => Ok((
            TermDefinitionV { language: Some(Nullable::Value(l)), ..def },
            if language_tag_valid(l) { w } else { w.push(WarningV::MalformedLanguageTag(l)) },
        )),
        Some(_) => Err(Error::InvalidLanguageMapping),
    }
}

/// The direction mapping (`@direction`) of a definition.
pub open spec fn direction_step(value: JsonV, def: TermDefinitionV) -> Result<TermDefinitionV, Error<Seq<char>>> {
    match value_get(value, "@direction"@) {
        None => Ok(def),
        Some(JsonV::Null) => Ok(TermDefinitionV { direction: Some(Nullable::Null), ..def }),
        Some(JsonV::String(s)) => if s == "ltr"@ {
            Ok(TermDefinitionV { direction: Some(Nullable::Value(Direction::Ltr)), ..def })
        } else if s == "rtl"@ {
            Ok(TermDefinitionV { direction: Some(Nullable::Value(Direction::Rtl)), ..def })
        } else {
            Err(Error::InvalidBaseDirection)
        },
        Some(_) => Err(Error::InvalidBaseDirection),
    }
}

/// The `@nest` value of a definition: a string, not a keyword other than `@nest`.
pub open spec fn nest_step(value: JsonV, def: TermDefinitionV, opts: Options) -> Result<TermDefinitionV, Error<Seq<char>>> {
    match value_get(value, "@nest"@) {
        None => Ok(def),
        Some(nv) => if opts.processing_mode == ProcessingMode::JsonLd1_0 {
            Err(Error::InvalidTermDefinition)
        } else {
            match nv {
                JsonV::String(n) => if spec_is_keyword(n) && n != "@nest"@ {
                    Err(Error::InvalidNestValue)
                } else {
                    Ok(TermDefinitionV { nest: Some(n), ..def })
                },
                _ => Err(Error::InvalidNestValue),
            }
        },
    }
}

/// The prefix flag of a definition, from its `@prefix` entry.
pub open spec fn prefix_step(term: Seq<char>, value: JsonV, def: TermDefinitionV, opts: Options) -> Result<TermDefinitionV, Error<Seq<char>>> {
    match value_get(value, "@prefix"@) {
        None => Ok(def),
        Some(pv) => if term.contains(':') || term.contains('/') || opts.processing_mode == ProcessingMode::JsonLd1_0 {
            Err(Error::InvalidTermDefinition)
        } else {
            match pv {
                JsonV::Boolean(b) => if b && (def.value matches Some(TermV::Keyword(_))) {
                    Err(Error::InvalidTermDefinition)
                } else {
                    Ok(TermDefinitionV { prefix: b, ..def })
                },
                _ => Err(Error::InvalidPrefixValue),
            }
        },
    }
}

/// The keys allowed in an expanded term definition.
pub open spec fn definition_key_ok(k: Seq<char>) -> bool {
    ||| k == "@id"@
    ||| k == "@reverse"@
    ||| k == "@container"@
    ||| k == "@context"@
    ||| k == "@direction"@
    ||| k == "@index"@
    ||| k == "@language"@
    ||| k == "@nest"@
    ||| k == "@prefix"@
    ||| k == "@protected"@
    ||| k == "@type"@
}

/// Every key of the value is allowed in a term definition.
pub open spec fn keys_ok(value: JsonV) -> bool {
    match value {
        JsonV::Object(o) => forall|i: int| 0 <= i < o.len() ==> #[trigger] definition_key_ok(o[i].0),
        _ => true,
    }
}

/// A protected previous definition may only be replaced, without
/// override, by the same definition (protected again).
pub open spec fn protected_check(prev: Option<TermDefinitionV>, def: TermDefinitionV, opts: Options) -> Result<TermDefinitionV, Error<Seq<char>>> {
    match prev {
        Some(pd) => if !opts.override_protected && pd.protected {
            if !same_modulo_protected(def, pd) {
                Err(Error::ProtectedTermRedefinition)
            } else {
                Ok(TermDefinitionV { protected: true, ..def })
            }
        } else {
            Ok(def)
        },
        None => Ok(def),
    }
}

/// The last steps of the definition of `term`: language and direction
/// (unless the value has `@type`), `@nest`, `@prefix`, the allowed keys,
/// the protection of the previous definition; then the definition is set in
/// the active context and the term is marked as defined.
pub open spec fn finish_step(term: Seq<char>, value: JsonV, prev: Option<TermDefinitionV>, def: TermDefinitionV, st: DefStateV, opts: Options) -> Result<DefStateV, Error<Seq<char>>> {
    let ld = if value_get(value, "@type"@) is Some {
        Ok((def, st.warnings))
    } else {
        match language_step(value, def, st.warnings) {
            Ok((d1, w1)) => match direction_step(value, d1) {
                Ok(d2) => Ok((d2, w1)),
                Err(e) => Err(e),
            },
            Err(e) => Err(e),
        }
    };
    match ld {
        Err(e) => Err(e),
        Ok((d2, w)) => match nest_step(value, d2, opts) {
            Err(e) => Err(e),
            Ok(d3) => match prefix_step(term, value, d3, opts) {
                Err(e) => Err(e),
                Ok(d4) => if !keys_ok(value) {
                    Err(Error::InvalidTermDefinition)
                } else {
                    match protected_check(prev, d4, opts) {
                        Err(e) => Err(e),
                        Ok(d5) => Ok(DefStateV {
                            ctx: context_set(st.ctx, term, Some(d5)),
                            defined: st.defined.insert(term, true),
                            warnings: w,
                        }),
                    }
                },
            },
        },
    }
}

/// Sets the language mapping of a definition (see [`language_step`]).
fn language_step_exec(value: &Json, def: &mut TermDefinition, warnings: &mut Vec<Warning>) -> (r: Result<(), Error<CannotLoad>>)
    ensures
        match language_step(value@, old(def)@, warnings_view(old(warnings)@)) {
            Ok((d, w)) => r is Ok && final(def)@ == d && warnings_view(final(warnings)@) == w,
            Err(e) => is_error(r, e),
        },
{
    match value_get_exec(value, "@language") {
        None => Ok(()),
        Some(Json::Null) => {
            def.language = Some(Nullable::Null);
            Ok(())
        },
        Some(Json::String(l)) => {
            if !check_language_tag(l.as_str()) {
                push_warning(warnings, Warning::MalformedLanguageTag(l.clone()));
            }
            def.language = Some(Nullable::Value(l.clone()));
            Ok(())
        },
        Some(_) => Err(Error::InvalidLanguageMapping),
    }
}

/// Sets the direction mapping of a definition (see [`direction_step`]).
fn direction_step_exec(value: &Json, def: &mut TermDefinition) -> (r: Result<(), Error<CannotLoad>>)
    ensures
        match direction_step(value@, old(def)@) {
            Ok(d) => r is Ok && final(def)@ == d,
            Err(e) => is_error(r, e),
        },
{
    match value_get_exec(value, "@direction") {
        None => Ok(()),
        Some(Json::Null) => {
            def.direction = Some(Nullable::Null);
            Ok(())
        },
        Some(Json::String(s)) => {
            if str_eq(s.as_str(), "ltr") {
                def.direction = Some(Nullable::Value(Direction::Ltr));
                Ok(())
            } else if str_eq(s.as_str(), "rtl") {
                def.direction = Some(Nullable::Value(Direction::Rtl));
                Ok(())
            } else {
                Err(Error::InvalidBaseDirection)
            }
        },
        Some(_) => Err(Error::InvalidBaseDirection),
    }
}

/// Sets the `@nest` value of a definition (see [`nest_step`]).
fn nest_step_exec(value: &Json, def: &mut TermDefinition, opts: Options) -> (r: Result<(), Error<CannotLoad>>)
    ensures
        match nest_step(value@, old(def)@, opts) {
            Ok(d) => r is Ok && final(def)@ == d,
            Err(e) => is_error(r, e),
        },
{
    match value_get_exec(value, "@nest") {
        None => Ok(()),
        Some(nv) => {
            if opts.processing_mode == ProcessingMode::JsonLd1_0 {
                return Err(Error::InvalidTermDefinition);
            }
            match nv {
                Json::String(n) => {
                    if is_keyword(n.as_str()) && !str_eq(n.as_str(), "@nest") {
                        Err(Error::InvalidNestValue)
                    } else {
                        def.nest = Some(n.clone());
                        Ok(())
                    }
                },
                _ => Err(Error::InvalidNestValue),
            }
        },
    }
}

/// Sets the prefix flag of a definition (see [`prefix_step`]).
fn prefix_step_exec(term: &str, value: &Json, def: &mut TermDefinition, opts: Options) -> (r: Result<(), Error<CannotLoad>>)
    ensures
        match prefix_step(term@, value@, old(def)@, opts) {
            Ok(d) => r is Ok && final(def)@ == d,
            Err(e) => is_error(r, e),
        },
{
    match value_get_exec(value, "@prefix") {
        None => Ok(()),
        Some(pv) => {
            if contains_char(term, ':') || contains_char(term, '/') || opts.processing_mode == ProcessingMode::JsonLd1_0 {
                return Err(Error::InvalidTermDefinition);
            }
            match pv {
                Json::Boolean(b) => {
                    let kw = match &def.value {
                        Some(Term::Keyword(_)) => true,
                        _ => false,
                    };
                    if *b && kw {
                        Err(Error::InvalidTermDefinition)
                    } else {
                        def.prefix = *b;
                        Ok(())
                    }
                },
                _ => Err(Error::InvalidPrefixValue),
            }
        },
    }
}

/// Checks that a key is allowed in a term definition.
fn definition_key_ok_exec(k: &str) -> (r: bool)
    ensures
        r == definition_key_ok(k@),
{
    str_eq(k, "@id") || str_eq(k, "@reverse") || str_eq(k, "@container") || str_eq(k, "@context")
        || str_eq(k, "@direction") || str_eq(k, "@index") || str_eq(k, "@language")
        || str_eq(k, "@nest") || str_eq(k, "@prefix") || str_eq(k, "@protected") || str_eq(k, "@type")
}

/// Checks that every key of the value is allowed in a term definition.
fn keys_ok_exec(value: &Json) -> (r: bool)
    ensures
        r == keys_ok(value@),
{
    match value {
        Json::Object(o) => {
            proof {
                lemma_entries_view(o@);
            }
            let mut i: usize = 0;
            while i < o.len()
                invariant
                    i <= o@.len(),
                    entries_view(o@).len() == o@.len(),
                    forall|j: int| 0 <= j < o@.len() ==> #[trigger] entries_view(o@)[j] == (o@[j].0@, o@[j].1@),
                    forall|j: int| 0 <= j < i ==> #[trigger] definition_key_ok(entries_view(o@)[j].0),
                    value@ == JsonV::Object(entries_view(o@)),
                decreases o@.len() - i,
            {
                if !definition_key_ok_exec(o[i].0.as_str()) {
                    proof {
                        assert(!definition_key_ok(entries_view(o@)[i as int].0));
                        assert(JsonV::Object(entries_view(o@))->Object_0 == entries_view(o@));
                    }
                    return false;
                }
                i = i + 1;
            }
            true
        },
        _ => true,
    }
}

/// The last steps of the definition of a term (see [`finish_step`]).
pub fn finish_step_exec(term: &str, value: &Json, prev: Option<TermDefinition>, def: TermDefinition, st: &mut DefState, opts: Options) -> (r: Result<(), Error<CannotLoad>>)
    requires
        old(st).wf(),
    ensures
        match finish_step(term@, value@, match prev { Some(p) => Some(p@), None => None }, def@, old(st)@, opts) {
            Ok(s) => r is Ok && final(st)@ == s && final(st).wf(),
            Err(e) => is_error(r, e),
        },
{
    let mut def = def;
    if value_get_exec(value, "@type").is_none() {
        match language_step_exec(value, &mut def, &mut st.warnings) {
            Ok(()) => {},
            Err(e) => {
                return Err(e);
            },
        }
        match direction_step_exec(value, &mut def) {
            Ok(()) => {},
            Err(e) => {
                return Err(e);
            },
        }
    }
    match nest_step_exec(value, &mut def, opts) {
        Ok(()) => {},
        Err(e) => {
            return Err(e);
        },
    }
    match prefix_step_exec(term, value, &mut def, opts) {
        Ok(()) => {},
        Err(e) => {
            return Err(e);
        },
    }
    if !keys_ok_exec(value) {
        return Err(Error::InvalidTermDefinition);
    }
    match &prev {
        Some(pd) => {
            if !opts.override_protected && pd.protected {
                if !def.eq_modulo_protected(pd) {
                    return Err(Error::ProtectedTermRedefinition);
                }
                def.protected = true;
            }
        },
        None => {},
    }
    let _ = st.context.set(term, Some(def));
    st.defined.set(term, true);
    Ok(())
}

/// A term whose definition has `@language` set to `null` (and no `@type`)
/// gets the `null` language mapping, which overrides the default
/// language, rather than no language mapping.
pub proof fn lemma_null_language_mapping(term: Seq<char>, value: JsonV, prev: Option<TermDefinitionV>, def: TermDefinitionV, st: DefStateV, opts: Options)
    requires
        value_get(value, "@type"@) is None,
        value_get(value, "@language"@) == Some(JsonV::Null),
    ensures
        finish_step(term, value, prev, def, st, opts) matches Ok(s) ==>
            s.ctx.definitions.contains_key(term) && s.ctx.definitions[term].language == Some(Nullable::<Seq<char>>::Null),
{
}

/// Without `@type`, a string `@language` of a term definition becomes its
/// language mapping, and a `null` `@direction` its `null` direction
/// mapping.
pub proof fn lemma_language_and_direction_mappings(term: Seq<char>, value: JsonV, prev: Option<TermDefinitionV>, def: TermDefinitionV, st: DefStateV, opts: Options, l: Seq<char>)
    requires
        value_get(value, "@type"@) is None,
    ensures
        value_get(value, "@language"@) == Some(JsonV::String(l)) ==>
            (finish_step(term, value, prev, def, st, opts) matches Ok(s) ==> s.ctx.definitions[term].language == Some(Nullable::Value(l))),
        value_get(value, "@direction"@) == Some(JsonV::Null) ==>
            (finish_step(term, value, prev, def, st, opts) matches Ok(s) ==> s.ctx.definitions[term].direction == Some(Nullable::<Direction>::Null)),
{
}

} // verus!

//! The context processing algorithm and the term definition algorithm.
//!
//! The algorithms are stated as spec functions over values (`process_spec`
//! and the functions it calls), and each executable function is proved to
//! compute exactly what its spec function states.
//!
//! Termination: the processing of a remote or scoped context goes one level
//! deeper, and the nesting depth is bounded. The entry points take the bound
//! from the store and the local context ([`depth_bound`]), so that a run
//! reaches it only where the algorithm would nest contexts forever (a scoped
//! context that imports the document that holds it, for example); there it
//! stops with a context overflow. Within one local context, each nested
//! term definition adds one more term of the local context to the defined
//! terms.
use vstd::prelude::*;
use vstd::set_lib::lemma_len_subset;
use vstd::seq_lib::seq_to_set_is_finite;
use crate::context::{
    Context, ContextV, TermDefinition, TermDefinitionV, TypeV, default_definition, context_set,
    has_protected, new_context, opt_str_view,
};
use crate::definition::{
    DefState, DefStateV, value_id, value_get, keyword_check, wrap_check, protected_value,
    type_mapping, reverse_container, index_step, container_step, finish_step,
};
use crate::error::{Error, Warning, WarningV};
use crate::id::{Reference, ReferenceV, Term, TermV};
use crate::iri::{
    iri_valid, iri_ref_valid, language_tag_valid, compact_iri_parts, spec_contains_after_first,
    spec_contains_between_boundaries, spec_is_gen_delim_or_blank,
};
use crate::json::{Json, JsonV, entries_get, entries_view, as_array};
use crate::loader::{CannotLoad, ContextStore, store_get, error_view};
use crate::processing::{
    Options, ProcessingStack, resolve_spec, expand_by_definition, expand_blank, expand_compact,
    expand_tail, expand_iri_simple_spec,
};
use crate::syntax::{Direction, Keyword, ProcessingMode, keyword_of, spec_is_keyword, spec_is_keyword_like};
use crate::text::{spec_find, lemma_find, find_char, contains_char, to_string};
use crate::context::opt_term_view;
use crate::definition::{
    value_id_exec, value_get_exec, keyword_check_exec, wrap_check_exec, protected_value_exec,
    type_mapping_exec, reverse_container_exec, index_step_exec, container_step_exec, finish_step_exec,
};
use crate::iri::{contains_after_first, contains_between_boundaries, is_gen_delim_or_blank, check_iri, split_compact_iri};
use crate::json::{object_get, json_seq_view, lemma_json_seq_view, lemma_entries_view, json_size, cap};
use crate::local::{
    propagate_option_exec, remote_context_exec, object_local_exec, object_settings_exec,
    protected_flag_exec, reserved_key_exec, compact_term_value_exec, simple_term_value_exec,
};
use crate::processing::{
    DefinedTerms, resolve_iri, expand_defined, expand_blank_exec, expand_compact_exec, expand_tail_exec,
    warnings_view, push_warning,
};

verus! {

/// What the definitions of one local context share: the remote documents,
/// the local context (its entries, merged with those of an imported
/// context), the remote contexts being processed, and the nesting depth
/// left.
pub struct LocalV {
    pub store: Seq<(Seq<char>, JsonV)>,
    pub merged: Seq<(Seq<char>, JsonV)>,
    pub stack: Seq<Seq<char>>,
    pub depth: nat,
}

/// The keys of a local context.
pub open spec fn local_keys(m: Seq<(Seq<char>, JsonV)>) -> Set<Seq<char>> {
    m.map_values(|e: (Seq<char>, JsonV)| e.0).to_set()
}

/// The number of keys of the local context whose definition has not started.
pub open spec fn undefined(m: Seq<(Seq<char>, JsonV)>, d: Map<Seq<char>, bool>) -> nat {
    local_keys(m).difference(d.dom()).len()
}

/// The state `out` that a nested call returned, with every term that
/// `st` had started to define (the nested calls only add terms).
pub open spec fn grow(st: DefStateV, out: DefStateV) -> DefStateV {
    DefStateV { defined: st.defined.union_prefer_right(out.defined), ..out }
}

pub proof fn lemma_entries_get_some(m: Seq<(Seq<char>, JsonV)>, k: Seq<char>)
    requires
        entries_get(m, k) is Some,
    ensures
        local_keys(m).contains(k),
    decreases m.len(),
{
    if m[0].0 == k {
        assert(m.map_values(|e: (Seq<char>, JsonV)| e.0)[0] == k);
    } else {
        lemma_entries_get_some(m.drop_first(), k);
        let t = m.drop_first().map_values(|e: (Seq<char>, JsonV)| e.0);
        let j = choose|j: int| 0 <= j < t.len() && t[j] == k;
        assert(m.map_values(|e: (Seq<char>, JsonV)| e.0)[j + 1] == k);
    }
}

pub proof fn lemma_undefined_mono(m: Seq<(Seq<char>, JsonV)>, d1: Map<Seq<char>, bool>, d2: Map<Seq<char>, bool>)
    requires
        d1.dom().subset_of(d2.dom()),
    ensures
        undefined(m, d2) <= undefined(m, d1),
{
    let keys = local_keys(m);
    seq_to_set_is_finite(m.map_values(|e: (Seq<char>, JsonV)| e.0));
    let a = keys.difference(d1.dom());
    let b = keys.difference(d2.dom());
    lemma_len_subset(a, keys);
    lemma_len_subset(b, a);
}

pub proof fn lemma_undefined_insert(m: Seq<(Seq<char>, JsonV)>, d: Map<Seq<char>, bool>, k: Seq<char>, v: bool)
    requires
        entries_get(m, k) is Some,
        !d.contains_key(k),
    ensures
        undefined(m, d.insert(k, v)) < undefined(m, d),
{
    lemma_entries_get_some(m, k);
    let keys = local_keys(m);
    seq_to_set_is_finite(m.map_values(|e: (Seq<char>, JsonV)| e.0));
    let a = keys.difference(d.dom());
    let b = keys.difference(d.insert(k, v).dom());
    lemma_len_subset(a, keys);
    assert(b =~= a.remove(k));
    assert(a.contains(k));
}

pub proof fn lemma_grow_undefined(m: Seq<(Seq<char>, JsonV)>, st: DefStateV, out: DefStateV)
    ensures
        undefined(m, grow(st, out).defined) <= undefined(m, st.defined),
{
    assert(st.defined.dom().subset_of(grow(st, out).defined.dom()));
    lemma_undefined_mono(m, st.defined, grow(st, out).defined);
}

pub proof fn lemma_grow_id(st: DefStateV, out: DefStateV)
    requires
        st.defined.dom().subset_of(out.defined.dom()),
    ensures
        grow(st, out) == out,
{
    assert(st.defined.union_prefer_right(out.defined) =~= out.defined);
}

/// The options given by the `@propagate` entry of a local context object:
/// a boolean, in JSON-LD 1.1 only.
pub open spec fn propagate_option(local: JsonV, opts: Options) -> Result<Options, Error<Seq<char>>> {
    match local {
        JsonV::Object(o) => match entries_get(o, "@propagate"@) {
            Some(v) => if opts.processing_mode == ProcessingMode::JsonLd1_0 {
                Err(Error::InvalidContextEntry)
            } else {
                match v {
                    JsonV::Boolean(b) => Ok(Options { propagate: b, ..opts }),
                    _ => Err(Error::InvalidPropagateValue),
                }
            },
            None => Ok(opts),
        },
        _ => Ok(opts),
    }
}

/// The context of a remote document: the `@context` entry of its top-level object.
pub open spec fn remote_context_of(doc: JsonV) -> Option<JsonV> {
    match doc {
        JsonV::Object(o) => entries_get(o, "@context"@),
        _ => None,
    }
}

/// The entries of an imported context that the importing context does not
/// override, in order.
pub open spec fn import_entries(io: Seq<(Seq<char>, JsonV)>, o: Seq<(Seq<char>, JsonV)>) -> Seq<(Seq<char>, JsonV)>
    decreases io.len(),
{
    if io.len() == 0 {
        Seq::empty()
    } else {
        let rest = import_entries(io.drop_last(), o);
        if entries_get(o, io.last().0) is Some {
            rest
        } else {
            rest.push(io.last())
        }
    }
}

/// The `@version` check of a context definition: a number whose value is
/// 1.1, in JSON-LD 1.1 only.
pub open spec fn version_check(o: Seq<(Seq<char>, JsonV)>, opts: Options) -> Option<Error<Seq<char>>> {
    match entries_get(o, "@version"@) {
        Some(v) => if !(v matches JsonV::Number(n) && crate::number::denotes_one_point_one(n)) {
            Some(Error::InvalidVersionValue)
        } else if opts.processing_mode == ProcessingMode::JsonLd1_0 {
            Some(Error::ProcessingModeConflict)
        } else {
            None
        },
        None => None,
    }
}

/// The entries of a context definition, merged with those of the context it
/// imports (`@import`), if any: the imported entries that it does not
/// override, then its own.
pub open spec fn object_local(store: Seq<(Seq<char>, JsonV)>, o: Seq<(Seq<char>, JsonV)>, base: Option<Seq<char>>, opts: Options) -> Result<Seq<(Seq<char>, JsonV)>, Error<Seq<char>>> {
    match version_check(o, opts) {
        Some(e) => Err(e),
        None => match entries_get(o, "@import"@) {
            None => Ok(o),
            Some(iv) => if opts.processing_mode == ProcessingMode::JsonLd1_0 {
                Err(Error::InvalidContextEntry)
            } else {
                match iv {
                    JsonV::String(s) => match resolve_spec(s, base) {
                        None => Err(Error::InvalidImportValue),
                        Some(iri) => match store_get(store, iri) {
                            None => Err(Error::ContextLoadingFailed(iri)),
                            Some(doc) => match remote_context_of(doc) {
                                Some(JsonV::Object(io)) => if entries_get(io, "@import"@) is Some {
                                    Err(Error::InvalidContextEntry)
                                } else {
                                    Ok(import_entries(io, o) + o)
                                },
                                _ => Err(Error::InvalidRemoteContext),
                            },
                        },
                    },
                    _ => Err(Error::InvalidImportValue),
                }
            },
        },
    }
}

/// The base IRI set by `@base` (outside remote contexts): `null` removes it,
/// an IRI replaces it, a relative reference is resolved against it.
pub open spec fn base_step(ctx: ContextV, merged: Seq<(Seq<char>, JsonV)>, stack: Seq<Seq<char>>) -> Result<ContextV, Error<Seq<char>>> {
    if stack.len() != 0 {
        Ok(ctx)
    } else {
        match entries_get(merged, "@base"@) {
            None => Ok(ctx),
            Some(JsonV::Null) => Ok(ContextV { base_iri: None, ..ctx }),
            Some(JsonV::String(v)) => if !iri_ref_valid(v) {
                Err(Error::InvalidBaseIri)
            } else if iri_valid(v) {
                Ok(ContextV { base_iri: Some(v), ..ctx })
            } else {
                match resolve_spec(v, ctx.base_iri) {
                    Some(r) => Ok(ContextV { base_iri: Some(r), ..ctx }),
                    None => Err(Error::InvalidBaseIri),
                }
            },
            Some(_) => Err(Error::InvalidBaseIri),
        }
    }
}

/// The vocabulary mapping set by `@vocab`: `null` removes it, a string is
/// expanded (document-relative) and must give a reference.
pub open spec fn vocab_step(ctx: ContextV, merged: Seq<(Seq<char>, JsonV)>, w: Seq<WarningV>) -> Result<(ContextV, Seq<WarningV>), Error<Seq<char>>> {
    match entries_get(merged, "@vocab"@) {
        None => Ok((ctx, w)),
        Some(JsonV::Null) => Ok((ContextV { vocabulary: None, ..ctx }, w)),
        Some(JsonV::String(v)) => {
            let (t, warning) = expand_iri_simple_spec(ctx, v, true, true);
            match t {
                TermV::Ref(r) => Ok((
                    ContextV { vocabulary: Some(TermV::Ref(r)), ..ctx },
                    match warning { Some(x) => w.push(x), None => w },
                )),
                _ => Err(Error::InvalidVocabMapping),
            }
        },
        Some(_) => Err(Error::InvalidVocabMapping),
    }
}

/// The default language set by `@language`, with a warning for a malformed tag.
pub open spec fn language_default_step(ctx: ContextV, merged: Seq<(Seq<char>, JsonV)>, w: Seq<WarningV>) -> Result<(ContextV, Seq<WarningV>), Error<Seq<char>>> {
    match entries_get(merged, "@language"@) {
        None => Ok((ctx, w)),
        Some(JsonV::Null) => Ok((ContextV { default_language: None, ..ctx }, w)),
        Some(JsonV::String(l)) => Ok((
            ContextV { default_language: Some(l), ..ctx },
            if language_tag_valid(l) { w } else { w.push(WarningV::MalformedLanguageTag(l)) },
        )),
        Some(_) => Err(Error::InvalidDefaultLanguage),
    }
}

/// The default base direction set by `@direction` (JSON-LD 1.1).
pub open spec fn direction_default_step(ctx: ContextV, merged: Seq<(Seq<char>, JsonV)>, opts: Options) -> Result<ContextV, Error<Seq<char>>> {
    match entries_get(merged, "@direction"@) {
        None => Ok(ctx),
        Some(v) => if opts.processing_mode == ProcessingMode::JsonLd1_0 {
            Err(Error::InvalidContextEntry)
        } else {
            match v {
                JsonV::Null => Ok(ContextV { default_base_direction: None, ..ctx }),
                JsonV::String(s) => if s == "ltr"@ {
                    Ok(ContextV { default_base_direction: Some(Direction::Ltr), ..ctx })
                } else if s == "rtl"@ {
                    Ok(ContextV { default_base_direction: Some(Direction::Rtl), ..ctx })
                } else {
                    Err(Error::InvalidBaseDirection)
                },
                _ => Err(Error::InvalidBaseDirection),
            }
        },
    }
}

/// The settings of a context definition: `@base`, `@vocab`, `@language`
/// and `@direction`, in that order.
pub open spec fn object_settings(ctx: ContextV, merged: Seq<(Seq<char>, JsonV)>, stack: Seq<Seq<char>>, opts: Options, w: Seq<WarningV>) -> Result<(ContextV, Seq<WarningV>), Error<Seq<char>>> {
    match base_step(ctx, merged, stack) {
        Err(e) => Err(e),
        Ok(c1) => match vocab_step(c1, merged, w) {
            Err(e) => Err(e),
            Ok((c2, w2)) => match language_default_step(c2, merged, w2) {
                Err(e) => Err(e),
                Ok((c3, w3)) => match direction_default_step(c3, merged, opts) {
                    Err(e) => Err(e),
                    Ok(c4) => Ok((c4, w3)),
                },
            },
        },
    }
}

/// The protected flag of a context definition: its `@protected` entry when
/// it is a boolean.
pub open spec fn protected_flag(merged: Seq<(Seq<char>, JsonV)>) -> bool {
    match entries_get(merged, "@protected"@) {
        Some(JsonV::Boolean(b)) => b,
        _ => false,
    }
}

/// Keys of a context definition that are not terms.
pub open spec fn reserved_key(k: Seq<char>) -> bool {
    ||| k == "@base"@
    ||| k == "@direction"@
    ||| k == "@import"@
    ||| k == "@language"@
    ||| k == "@propagate"@
    ||| k == "@protected"@
    ||| k == "@version"@
    ||| k == "@vocab"@
}

/// The IRI mapping of a compact term `prefix:suffix` whose `@id` is not
/// given: the prefix's IRI followed by the suffix, if the prefix is
/// defined; else the term itself, a blank node identifier or an IRI.
pub open spec fn compact_term_value(ctx: ContextV, term: Seq<char>, prefix: Seq<char>, suffix: Seq<char>) -> Result<TermV, Error<Seq<char>>> {
    if ctx.definitions.contains_key(prefix) {
        let head = match ctx.definitions[prefix].value {
            Some(TermV::Ref(ReferenceV::Id(iri))) => iri,
            _ => Seq::empty(),
        };
        if iri_valid(head + suffix) {
            Ok(TermV::Ref(ReferenceV::Id(head + suffix)))
        } else {
            Err(Error::InvalidIriMapping)
        }
    } else if prefix == seq!['_'] {
        Ok(TermV::Ref(ReferenceV::Blank(term)))
    } else if iri_valid(term) {
        Ok(TermV::Ref(ReferenceV::Id(term)))
    } else {
        Err(Error::InvalidIriMapping)
    }
}

/// The IRI mapping of a term without colon (after its first character)
/// whose `@id` is not given: a relative IRI reference (with a slash),
/// `@type`, or the term appended to the vocabulary IRI.
pub open spec fn simple_term_value(ctx: ContextV, term: Seq<char>) -> Result<TermV, Error<Seq<char>>> {
    if term.contains('/') {
        match expand_iri_simple_spec(ctx, term, false, true).0 {
            TermV::Ref(ReferenceV::Id(id)) => Ok(TermV::Ref(ReferenceV::Id(id))),
            _ => Err(Error::InvalidIriMapping),
        }
    } else if term == "@type"@ {
        Ok(TermV::Keyword(Keyword::Type))
    } else {
        match ctx.vocabulary {
            Some(TermV::Ref(ReferenceV::Id(v))) => if iri_valid(v + term) {
                Ok(TermV::Ref(ReferenceV::Id(v + term)))
            } else {
                Err(Error::InvalidIriMapping)
            },
            _ => Err(Error::InvalidIriMapping),
        }
    }
}

/// The prefix flag of a simple term (no colon, no slash) whose IRI mapping
/// ends with a generic delimiter or is a blank node identifier.
pub open spec fn prefix_flag(term: Seq<char>, simple: bool, def: TermDefinitionV) -> TermDefinitionV {
    if !term.contains(':') && !term.contains('/') && simple && def.value is Some
        && spec_is_gen_delim_or_blank(def.value->0) {
        TermDefinitionV { prefix: true, ..def }
    } else {
        def
    }
}

/// The context processing algorithm: processes the local context `local`
/// against the active context `active`, with the remote documents of
/// `store`, the remote contexts `stack` being processed, the base URL
/// `base`, the options `opts` and the nesting depth `depth` left. Gives the
/// new active context and the warnings `w` followed by those raised.
pub open spec fn process_spec(store: Seq<(Seq<char>, JsonV)>, active: ContextV, local: JsonV, stack: Seq<Seq<char>>, base: Option<Seq<char>>, opts: Options, depth: nat, w: Seq<WarningV>) -> Result<(ContextV, Seq<WarningV>), Error<Seq<char>>>
    decreases depth, 4int, 0int, 0int,
{
    match propagate_option(local, opts) {
        Err(e) => Err(e),
        Ok(opts1) => {
            let result = if !opts1.propagate && active.previous_context is None {
                ContextV { previous_context: Some(Box::new(active)), ..active }
            } else {
                active
            };
            process_items(store, active, result, as_array(local), 0, stack, base, opts1, depth, w)
        },
    }
}

/// Processes the items of a local context from the `i`-th on.
pub open spec fn process_items(store: Seq<(Seq<char>, JsonV)>, active: ContextV, result: ContextV, items: Seq<JsonV>, i: int, stack: Seq<Seq<char>>, base: Option<Seq<char>>, opts: Options, depth: nat, w: Seq<WarningV>) -> Result<(ContextV, Seq<WarningV>), Error<Seq<char>>>
    decreases depth, 3int, items.len() - i, 0int,
{
    if i < 0 || i >= items.len() {
        Ok((result, w))
    } else {
        match process_item(store, active, result, items[i], stack, base, opts, depth, w) {
            Err(e) => Err(e),
            Ok((r2, w2)) => process_items(store, active, r2, items, i + 1, item_stack(items[i], stack, base), base, opts, depth, w2),
        }
    }
}

/// The remote contexts being processed after an item of a local context:
/// a reference to a remote context that is not yet on the stack is pushed
/// on it, for the items that follow too.
pub open spec fn item_stack(item: JsonV, stack: Seq<Seq<char>>, base: Option<Seq<char>>) -> Seq<Seq<char>> {
    match item {
        JsonV::String(s) => match resolve_spec(s, base) {
            Some(iri) => if stack.contains(iri) { stack } else { stack.push(iri) },
            None => stack,
        },
        _ => stack,
    }
}

/// Processes one item of a local context: `null` resets the context, a
/// string names a remote context, an object is a context definition.
pub open spec fn process_item(store: Seq<(Seq<char>, JsonV)>, active: ContextV, result: ContextV, item: JsonV, stack: Seq<Seq<char>>, base: Option<Seq<char>>, opts: Options, depth: nat, w: Seq<WarningV>) -> Result<(ContextV, Seq<WarningV>), Error<Seq<char>>>
    decreases depth, 2int, 0int, 0int,
{
    match item {
        JsonV::Null => if !opts.override_protected && has_protected(result) {
            Err(Error::InvalidContextNullification)
        } else {
            let fresh = new_context(active.original_base_url);
            Ok((
                if !opts.propagate {
                    ContextV { previous_context: Some(Box::new(result)), ..fresh }
                } else {
                    fresh
                },
                w,
            ))
        },
        JsonV::String(s) => match resolve_spec(s, base) {
            None => Err(Error::LoadingDocumentFailed),
            Some(iri) => if stack.contains(iri) {
                Ok((result, w))
            } else {
                match store_get(store, iri) {
                    None => Err(Error::ContextLoadingFailed(iri)),
                    Some(doc) => match remote_context_of(doc) {
                        None => Err(Error::InvalidRemoteContext),
                        Some(loaded) => if depth == 0 {
                            Err(Error::ContextOverflow)
                        } else {
                            process_spec(
                                store,
                                result,
                                loaded,
                                stack.push(iri),
                                Some(iri),
                                Options { processing_mode: opts.processing_mode, override_protected: false, propagate: true },
                                (depth - 1) as nat,
                                w,
                            )
                        },
                    },
                }
            },
        },
        JsonV::Object(o) => match object_local(store, o, base, opts) {
            Err(e) => Err(e),
            Ok(merged) => match object_settings(result, merged, stack, opts, w) {
                Err(e) => Err(e),
                Ok((r1, w1)) => {
                    let env = LocalV { store, merged, stack, depth };
                    let st = DefStateV { ctx: r1, defined: Map::empty(), warnings: w1 };
                    match define_keys(env, 0, st, base, protected_flag(merged), opts) {
                        Err(e) => Err(e),
                        Ok(s) => Ok((s.ctx, s.warnings)),
                    }
                },
            },
        },
        _ => Err(Error::InvalidLocalContext),
    }
}

/// Defines the terms of the local context from its `k`-th entry on.
pub open spec fn define_keys(env: LocalV, k: int, st: DefStateV, base: Option<Seq<char>>, protected: bool, opts: Options) -> Result<DefStateV, Error<Seq<char>>>
    decreases env.depth, 1int, env.merged.len() - k, 0int,
{
    if k < 0 || k >= env.merged.len() {
        Ok(st)
    } else if reserved_key(env.merged[k].0) {
        define_keys(env, k + 1, st, base, protected, opts)
    } else {
        match define_spec(env, env.merged[k].0, st, base, protected, opts) {
            Err(e) => Err(e),
            Ok(s2) => define_keys(env, k + 1, s2, base, protected, opts),
        }
    }
}

/// The term definition algorithm for `term`: nothing if its definition is
/// complete, an error on a cycle; a term that is not a key of the local
/// context is only marked as being defined.
pub open spec fn define_spec(env: LocalV, term: Seq<char>, st: DefStateV, base: Option<Seq<char>>, protected: bool, opts: Options) -> Result<DefStateV, Error<Seq<char>>>
    decreases env.depth, 0int, undefined(env.merged, st.defined) as int, 1int,
{
    if st.defined.contains_key(term) {
        if st.defined[term] {
            Ok(st)
        } else {
            Err(Error::CyclicIriMapping)
        }
    } else if term.len() == 0 {
        Err(Error::InvalidTermDefinition)
    } else {
        match entries_get(env.merged, term) {
            None => Ok(DefStateV { defined: st.defined.insert(term, false), ..st }),
            Some(value) => {
                proof {
                    lemma_undefined_insert(env.merged, st.defined, term, false);
                }
                define_new(env, term, value, DefStateV { defined: st.defined.insert(term, false), ..st }, base, protected, opts)
            },
        }
    }
}

/// IRI expansion during context processing: as [`expand_iri_simple_spec`],
/// but the terms of the local context that the value and the prefix of a
/// compact IRI name are defined first.
pub open spec fn expand_iri_with(env: LocalV, value: Seq<char>, document_relative: bool, vocab: bool, st: DefStateV, opts: Options) -> Result<(TermV, DefStateV), Error<Seq<char>>>
    decreases env.depth, 0int, undefined(env.merged, st.defined) as int, 2int,
{
    if keyword_of(value) is Some {
        Ok((TermV::Keyword(keyword_of(value)->0), st))
    } else if spec_is_keyword_like(value) {
        Ok((TermV::Null, DefStateV { warnings: st.warnings.push(WarningV::KeywordLikeValue(value)), ..st }))
    } else {
        let no_override = Options { override_protected: false, ..opts };
        match define_spec(env, value, st, None, false, no_override) {
            Err(e) => Err(e),
            Ok(out1) => {
                let s1 = grow(st, out1);
                if expand_by_definition(s1.ctx, value, vocab) is Some {
                    Ok((expand_by_definition(s1.ctx, value, vocab)->0, s1))
                } else if spec_contains_after_first(value, ':') && expand_blank(value) is Some {
                    Ok((expand_blank(value)->0, s1))
                } else if spec_contains_after_first(value, ':') && compact_iri_parts(value) is Some {
                    proof {
                        lemma_grow_undefined(env.merged, st, out1);
                    }
                    match define_spec(env, (compact_iri_parts(value)->0).0, s1, None, false, no_override) {
                        Err(e) => Err(e),
                        Ok(out2) => {
                            let s2 = grow(s1, out2);
                            if expand_compact(s2.ctx, value) is Some {
                                Ok((expand_compact(s2.ctx, value)->0, s2))
                            } else if iri_valid(value) {
                                Ok((TermV::Ref(ReferenceV::Id(value)), s2))
                            } else {
                                let (t, warning) = expand_tail(s2.ctx, value, document_relative, vocab);
                                Ok((t, DefStateV { warnings: match warning { Some(x) => s2.warnings.push(x), None => s2.warnings }, ..s2 }))
                            }
                        },
                    }
                } else if spec_contains_after_first(value, ':') && iri_valid(value) {
                    Ok((TermV::Ref(ReferenceV::Id(value)), s1))
                } else {
                    let (t, warning) = expand_tail(s1.ctx, value, document_relative, vocab);
                    Ok((t, DefStateV { warnings: match warning { Some(x) => s1.warnings.push(x), None => s1.warnings }, ..s1 }))
                }
            },
        }
    }
}

/// The definition of a term of the local context, once its definition has
/// started: the checks on the term, the removal of its previous definition,
/// the checks on the value and its protected flag, then the remaining steps.
pub open spec fn define_new(env: LocalV, term: Seq<char>, value: JsonV, st: DefStateV, base: Option<Seq<char>>, protected: bool, opts: Options) -> Result<DefStateV, Error<Seq<char>>>
    decreases env.depth, 0int, undefined(env.merged, st.defined) as int, 12int,
{
    match keyword_check(term, value, opts) {
        Err(e) => Err(e),
        Ok(false) => Ok(DefStateV { warnings: st.warnings.push(WarningV::KeywordLikeTerm(term)), ..st }),
        Ok(true) => {
            let prev = if st.ctx.definitions.contains_key(term) {
                Some(st.ctx.definitions[term])
            } else {
                None
            };
            let st1 = DefStateV { ctx: context_set(st.ctx, term, None), ..st };
            match wrap_check(value) {
                Err(e) => Err(e),
                Ok(simple) => match protected_value(value, protected, opts) {
                    Err(e) => Err(e),
                    Ok(p) => define_type(env, term, value, simple, prev, default_definition(p), st1, base, opts),
                },
            }
        },
    }
}

/// The type mapping (`@type`) step of a term definition.
pub open spec fn define_type(env: LocalV, term: Seq<char>, value: JsonV, simple: bool, prev: Option<TermDefinitionV>, def: TermDefinitionV, st: DefStateV, base: Option<Seq<char>>, opts: Options) -> Result<DefStateV, Error<Seq<char>>>
    decreases env.depth, 0int, undefined(env.merged, st.defined) as int, 11int,
{
    match value_get(value, "@type"@) {
        None => define_reverse(env, term, value, simple, prev, def, st, base, opts),
        Some(JsonV::String(t)) => match expand_iri_with(env, t, false, true, st, opts) {
            Err(e) => Err(e),
            Ok((typ, out)) => {
                let s1 = grow(st, out);
                proof {
                    lemma_grow_undefined(env.merged, st, out);
                }
                match type_mapping(typ, opts) {
                    Err(e) => Err(e),
                    Ok(ty) => define_reverse(env, term, value, simple, prev, TermDefinitionV { typ: Some(ty), ..def }, s1, base, opts),
                }
            },
        },
        Some(_) => Err(Error::InvalidTypeMapping),
    }
}

/// The reverse property (`@reverse`) step of a term definition, which
/// completes the definition when the value has `@reverse`.
pub open spec fn define_reverse(env: LocalV, term: Seq<char>, value: JsonV, simple: bool, prev: Option<TermDefinitionV>, def: TermDefinitionV, st: DefStateV, base: Option<Seq<char>>, opts: Options) -> Result<DefStateV, Error<Seq<char>>>
    decreases env.depth, 0int, undefined(env.merged, st.defined) as int, 10int,
{
    match value_get(value, "@reverse"@) {
        None => define_id(env, term, value, simple, prev, def, st, base, opts),
        Some(rv) => if value_id(value) is Some || value_get(value, "@nest"@) is Some {
            Err(Error::InvalidReverseProperty)
        } else {
            match rv {
                JsonV::String(r) => if spec_is_keyword_like(r) {
                    Ok(DefStateV { warnings: st.warnings.push(WarningV::KeywordLikeValue(r)), ..st })
                } else {
                    match expand_iri_with(env, r, false, true, st, opts) {
                        Err(e) => Err(e),
                        Ok((t, out)) => {
                            let s1 = grow(st, out);
                            match t {
                                TermV::Ref(m) => if m is Invalid {
                                    Err(Error::InvalidIriMapping)
                                } else {
                                    match reverse_container(value_get(value, "@container"@)) {
                                        Err(e) => Err(e),
                                        Ok(c) => Ok(DefStateV {
                                            ctx: context_set(s1.ctx, term, Some(TermDefinitionV {
                                                value: Some(TermV::Ref(m)),
                                                container: c,
                                                reverse_property: true,
                                                ..def
                                            })),
                                            defined: s1.defined.insert(term, true),
                                            warnings: s1.warnings,
                                        }),
                                    }
                                },
                                _ => Err(Error::InvalidIriMapping),
                            }
                        },
                    }
                },
                _ => Err(Error::InvalidIriMapping),
            }
        },
    }
}

/// The IRI mapping (`@id`) step of a term definition.
pub open spec fn define_id(env: LocalV, term: Seq<char>, value: JsonV, simple: bool, prev: Option<TermDefinitionV>, def: TermDefinitionV, st: DefStateV, base: Option<Seq<char>>, opts: Options) -> Result<DefStateV, Error<Seq<char>>>
    decreases env.depth, 0int, undefined(env.merged, st.defined) as int, 9int,
{
    let idv = value_id(value);
    if idv is Some && idv->0 != JsonV::String(term) {
        match idv->0 {
            JsonV::Null => define_scoped(env, term, value, prev, def, st, base, opts),
            JsonV::String(s) => define_id_value(env, term, s, value, simple, prev, def, st, base, opts),
            _ => Err(Error::InvalidIriMapping),
        }
    } else if spec_contains_after_first(term, ':') {
        let i = spec_find(term, ':')->0;
        let prefix = term.subrange(0, i);
        let suffix = term.subrange(i + 1, term.len() as int);
        match define_spec(env, prefix, st, None, false, Options { override_protected: false, ..opts }) {
            Err(e) => Err(e),
            Ok(out) => {
                let s1 = grow(st, out);
                proof {
                    lemma_grow_undefined(env.merged, st, out);
                }
                match compact_term_value(s1.ctx, term, prefix, suffix) {
                    Err(e) => Err(e),
                    Ok(t) => define_scoped(env, term, value, prev, TermDefinitionV { value: Some(t), ..def }, s1, base, opts),
                }
            },
        }
    } else {
        match simple_term_value(st.ctx, term) {
            Err(e) => Err(e),
            Ok(t) => define_scoped(env, term, value, prev, TermDefinitionV { value: Some(t), ..def }, st, base, opts),
        }
    }
}

/// The IRI mapping step when `@id` is a string `s` other than the term: the
/// expansion of `s`, which must be neither `@context` nor an invalid
/// reference.
pub open spec fn define_id_value(env: LocalV, term: Seq<char>, s: Seq<char>, value: JsonV, simple: bool, prev: Option<TermDefinitionV>, def: TermDefinitionV, st: DefStateV, base: Option<Seq<char>>, opts: Options) -> Result<DefStateV, Error<Seq<char>>>
    decreases env.depth, 0int, undefined(env.merged, st.defined) as int, 8int,
{
    if spec_is_keyword_like(s) && !spec_is_keyword(s) {
        Ok(DefStateV { warnings: st.warnings.push(WarningV::KeywordLikeValue(s)), ..st })
    } else {
        match expand_iri_with(env, s, false, true, st, opts) {
            Err(e) => Err(e),
            Ok((t, out)) => {
                let s1 = grow(st, out);
                proof {
                    lemma_grow_undefined(env.merged, st, out);
                }
                if t == TermV::Keyword(Keyword::Context) {
                    Err(Error::InvalidKeywordAlias)
                } else if t matches TermV::Ref(ReferenceV::Invalid(_)) {
                    Err(Error::InvalidIriMapping)
                } else {
                    define_id_check(env, term, value, simple, prev, TermDefinitionV { value: Some(t), ..def }, s1, base, opts)
                }
            },
        }
    }
}

/// The IRI mapping step, continued: a term that looks like a compact IRI
/// or an IRI must expand to its own IRI mapping; a simple term whose IRI
/// mapping ends with a generic delimiter gets the prefix flag.
pub open spec fn define_id_check(env: LocalV, term: Seq<char>, value: JsonV, simple: bool, prev: Option<TermDefinitionV>, def: TermDefinitionV, st: DefStateV, base: Option<Seq<char>>, opts: Options) -> Result<DefStateV, Error<Seq<char>>>
    decreases env.depth, 0int, undefined(env.merged, st.defined) as int, 7int,
{
    if spec_contains_between_boundaries(term, ':') || term.contains('/') {
        let s1b = DefStateV { defined: st.defined.insert(term, true), ..st };
        proof {
            lemma_undefined_mono(env.merged, st.defined, s1b.defined);
        }
        match expand_iri_with(env, term, false, true, s1b, opts) {
            Err(e) => Err(e),
            Ok((t2, out2)) => {
                let s2 = grow(s1b, out2);
                proof {
                    lemma_grow_undefined(env.merged, s1b, out2);
                }
                if Some(t2) != def.value {
                    Err(Error::InvalidIriMapping)
                } else {
                    define_scoped(env, term, value, prev, prefix_flag(term, simple, def), s2, base, opts)
                }
            },
        }
    } else {
        define_scoped(env, term, value, prev, prefix_flag(term, simple, def), st, base, opts)
    }
}

/// The container, index and scoped context (`@context`) steps of a term
/// definition, then its last steps.
pub open spec fn define_scoped(env: LocalV, term: Seq<char>, value: JsonV, prev: Option<TermDefinitionV>, def: TermDefinitionV, st: DefStateV, base: Option<Seq<char>>, opts: Options) -> Result<DefStateV, Error<Seq<char>>>
    decreases env.depth, 0int, undefined(env.merged, st.defined) as int, 6int,
{
    match container_step(value, def, opts) {
        Err(e) => Err(e),
        Ok(d1) => match index_step(st.ctx, value, d1, opts) {
            Err(e) => Err(e),
            Ok(d2) => match value_get(value, "@context"@) {
                None => finish_step(term, value, prev, d2, st, opts),
                Some(c) => define_context(env, term, value, c, prev, d2, st, base, opts),
            },
        },
    }
}

/// The scoped context step: the scoped context `c` must process without
/// error (JSON-LD 1.1), with override of protected definitions; the
/// definition keeps it with the base URL. At the depth bound, the scoped
/// context is refused.
pub open spec fn define_context(env: LocalV, term: Seq<char>, value: JsonV, c: JsonV, prev: Option<TermDefinitionV>, def: TermDefinitionV, st: DefStateV, base: Option<Seq<char>>, opts: Options) -> Result<DefStateV, Error<Seq<char>>>
    decreases env.depth, 0int, undefined(env.merged, st.defined) as int, 5int,
{
    if opts.processing_mode == ProcessingMode::JsonLd1_0 {
        Err(Error::InvalidTermDefinition)
    } else if env.depth == 0 {
        Err(Error::InvalidScopedContext)
    } else {
        match process_spec(env.store, st.ctx, c, env.stack, base, Options { override_protected: true, ..opts }, (env.depth - 1) as nat, st.warnings) {
            Err(_) => Err(Error::InvalidScopedContext),
            Ok((_, w)) => finish_step(
                term,
                value,
                prev,
                TermDefinitionV { context: Some(c), base_url: base, ..def },
                DefStateV { warnings: w, ..st },
                opts,
            ),
        }
    }
}

/// What the definitions of one local context share (see [`LocalV`]).
pub struct Env<'a> {
    pub store: &'a ContextStore,
    pub merged: &'a Vec<(String, Json)>,
    pub stack: &'a ProcessingStack,
    pub depth: usize,
}

impl<'a> View for Env<'a> {
    type V = LocalV;

    open spec fn view(&self) -> LocalV {
        LocalV { store: self.store@, merged: entries_view(self.merged@), stack: self.stack@, depth: self.depth as nat }
    }
}

/// The view of an optional string reference.
pub open spec fn opt_ref_str(b: Option<&String>) -> Option<Seq<char>> {
    match b {
        Some(s) => Some(s@),
        None => None,
    }
}

/// The view of an optional term definition.
pub open spec fn opt_def(d: Option<TermDefinition>) -> Option<TermDefinitionV> {
    match d {
        Some(d) => Some(d@),
        None => None,
    }
}

/// The view of the result of a definition step.
pub open spec fn def_view(r: Result<DefState, Error<CannotLoad>>) -> Result<DefStateV, Error<Seq<char>>> {
    match r {
        Ok(s) => Ok(s@),
        Err(e) => Err(error_view(e)),
    }
}

/// A definition step that succeeds gives a well-formed state that has
/// started at least the definitions that `st` had.
pub open spec fn def_ok(st: DefStateV, r: Result<DefState, Error<CannotLoad>>) -> bool {
    r matches Ok(s) ==> s.wf() && st.defined.dom().subset_of(s@.defined.dom())
}

/// The view of the result of an IRI expansion during context processing.
pub open spec fn exp_view(r: Result<(Term, DefState), Error<CannotLoad>>) -> Result<(TermV, DefStateV), Error<Seq<char>>> {
    match r {
        Ok((t, s)) => Ok((t@, s@)),
        Err(e) => Err(error_view(e)),
    }
}

/// An expansion that succeeds gives a well-formed state that has started
/// at least the definitions that `st` had.
pub open spec fn exp_ok(st: DefStateV, r: Result<(Term, DefState), Error<CannotLoad>>) -> bool {
    r matches Ok((_, s)) ==> s.wf() && st.defined.dom().subset_of(s@.defined.dom())
}

/// The view of the result of context processing.
pub open spec fn proc_view(r: Result<(Context, Vec<Warning>), Error<CannotLoad>>) -> Result<(ContextV, Seq<WarningV>), Error<Seq<char>>> {
    match r {
        Ok((c, w)) => Ok((c@, warnings_view(w@))),
        Err(e) => Err(error_view(e)),
    }
}

/// Context processing that succeeds gives a well-formed context.
pub open spec fn proc_ok(r: Result<(Context, Vec<Warning>), Error<CannotLoad>>) -> bool {
    r matches Ok((c, _)) ==> c.wf()
}

/// Processes the local context `local` (see [`process_spec`]).
pub fn process_local(store: &ContextStore, active: &Context, local: &Json, stack: &ProcessingStack, base: Option<&String>, opts: Options, depth: usize, w: Vec<Warning>) -> (r: Result<(Context, Vec<Warning>), Error<CannotLoad>>)
    requires
        active.wf(),
    ensures
        proc_view(r) == process_spec(store@, active@, local@, stack@, opt_ref_str(base), opts, depth as nat, warnings_view(w@)),
        proc_ok(r),
    decreases depth, 4int, 0int, 0int,
{
    let opts1 = match propagate_option_exec(local, opts) {
        Ok(o) => o,
        Err(e) => {
            return Err(e);
        },
    };
    let mut result = active.duplicate();
    if !opts1.propagate && active.previous_context().is_none() {
        result.set_previous_context(active.duplicate());
    }
    match local {
        Json::Array(items) => {
            proof {
                lemma_json_seq_view(items@);
            }
            process_local_items(store, active, result, items, 0, stack, base, opts1, depth, w)
        },
        _ => {
            let r = process_local_item(store, active, result, local, stack, base, opts1, depth, w);
            proof {
                reveal_with_fuel(process_items, 2);
            }
            r
        },
    }
}

/// Processes the items of a local context from the `i`-th on (see [`process_items`]).
fn process_local_items(store: &ContextStore, active: &Context, result: Context, items: &Vec<Json>, i: usize, stack: &ProcessingStack, base: Option<&String>, opts: Options, depth: usize, w: Vec<Warning>) -> (r: Result<(Context, Vec<Warning>), Error<CannotLoad>>)
    requires
        active.wf(),
        result.wf(),
        i <= items@.len(),
    ensures
        proc_view(r) == process_items(store@, active@, result@, json_seq_view(items@), i as int, stack@, opt_ref_str(base), opts, depth as nat, warnings_view(w@)),
        proc_ok(r),
    decreases depth, 3int, json_seq_view(items@).len() - i, 0int,
{
    proof {
        lemma_json_seq_view(items@);
    }
    if i >= items.len() {
        return Ok((result, w));
    }
    match process_local_item(store, active, result, &items[i], stack, base, opts, depth, w) {
        Err(e) => Err(e),
        Ok((r2, w2)) => {
            let mut next = stack.duplicate();
            match &items[i] {
                Json::String(s) => match resolve_iri(s.as_str(), base) {
                    Some(iri) => {
                        let _ = next.push(iri.as_str());
                    },
                    None => {},
                },
                _ => {},
            }
            process_local_items(store, active, r2, items, i + 1, &next, base, opts, depth, w2)
        },
    }
}

/// Processes one item of a local context (see [`process_item`]).
fn process_local_item(store: &ContextStore, active: &Context, result: Context, item: &Json, stack: &ProcessingStack, base: Option<&String>, opts: Options, depth: usize, w: Vec<Warning>) -> (r: Result<(Context, Vec<Warning>), Error<CannotLoad>>)
    requires
        active.wf(),
        result.wf(),
    ensures
        proc_view(r) == process_item(store@, active@, result@, item@, stack@, opt_ref_str(base), opts, depth as nat, warnings_view(w@)),
        proc_ok(r),
    decreases depth, 2int, 0int, 0int,
{
    match item {
        Json::Null => {
            if !opts.override_protected && result.has_protected_items() {
                return Err(Error::InvalidContextNullification);
            }
            let original = match active.original_base_url() {
                Some(b) => Some(b.clone()),
                None => None,
            };
            let mut fresh = Context::new(original);
            if !opts.propagate {
                fresh.set_previous_context(result);
            }
            Ok((fresh, w))
        },
        Json::String(s) => {
            match resolve_iri(s.as_str(), base) {
                None => Err(Error::LoadingDocumentFailed),
                Some(iri) => {
                    if stack.cycle(iri.as_str()) {
                        return Ok((result, w));
                    }
                    match store.get(iri.as_str()) {
                        None => Err(Error::ContextLoadingFailed(CannotLoad(iri))),
                        Some(doc) => match remote_context_exec(doc) {
                            None => Err(Error::InvalidRemoteContext),
                            Some(loaded) => {
                                if depth == 0 {
                                    return Err(Error::ContextOverflow);
                                }
                                let mut inner = stack.duplicate();
                                let _ = inner.push(iri.as_str());
                                let opts2 = Options { processing_mode: opts.processing_mode, override_protected: false, propagate: true };
                                process_local(store, &result, loaded, &inner, Some(&iri), opts2, depth - 1, w)
                            },
                        },
                    }
                },
            }
        },
        Json::Object(o) => {
            let merged = match object_local_exec(store, o, base, opts) {
                Ok(m) => m,
                Err(e) => {
                    return Err(e);
                },
            };
            let (r1, w1) = match object_settings_exec(result, &merged, stack, opts, w) {
                Ok(x) => x,
                Err(e) => {
                    return Err(e);
                },
            };
            let protected = protected_flag_exec(&merged);
            let env = Env { store, merged: &merged, stack, depth };
            let st = DefState { context: r1, defined: DefinedTerms::new(), warnings: w1 };
            match define_terms(&env, 0, st, base, protected, opts) {
                Err(e) => Err(e),
                Ok(s) => {
                    let DefState { context, defined: _, warnings } = s;
                    Ok((context, warnings))
                },
            }
        },
        _ => Err(Error::InvalidLocalContext),
    }
}

/// Defines the terms of the local context from its `k`-th entry on (see
/// [`define_keys`]).
fn define_terms(env: &Env, k: usize, st: DefState, base: Option<&String>, protected: bool, opts: Options) -> (r: Result<DefState, Error<CannotLoad>>)
    requires
        st.wf(),
        k <= env.merged@.len(),
    ensures
        def_view(r) == define_keys(env@, k as int, st@, opt_ref_str(base), protected, opts),
        r matches Ok(s) ==> s.wf(),
    decreases env.depth, 1int, env@.merged.len() - k, 0int,
{
    proof {
        lemma_entries_view(env.merged@);
    }
    if k >= env.merged.len() {
        return Ok(st);
    }
    let key = env.merged[k].0.as_str();
    if reserved_key_exec(key) {
        define_terms(env, k + 1, st, base, protected, opts)
    } else {
        match define(env, key, st, base, protected, opts) {
            Err(e) => Err(e),
            Ok(s2) => define_terms(env, k + 1, s2, base, protected, opts),
        }
    }
}

/// The term definition algorithm (see [`define_spec`]).
fn define(env: &Env, term: &str, st: DefState, base: Option<&String>, protected: bool, opts: Options) -> (r: Result<DefState, Error<CannotLoad>>)
    requires
        st.wf(),
    ensures
        def_view(r) == define_spec(env@, term@, st@, opt_ref_str(base), protected, opts),
        def_ok(st@, r),
    decreases env.depth, 0int, undefined(env@.merged, st@.defined) as int, 1int,
{
    let ghost st0 = st@;
    let mut st = st;
    match st.defined.begin(term) {
        Err(e) => Err(e),
        Ok(false) => Ok(st),
        Ok(true) => {
            if term.unicode_len() == 0 {
                return Err(Error::InvalidTermDefinition);
            }
            match object_get(env.merged, term) {
                None => Ok(st),
                Some(value) => {
                    proof {
                        lemma_undefined_insert(env@.merged, st0.defined, term@, false);
                    }
                    define_new_term(env, term, value, st, base, protected, opts)
                },
            }
        },
    }
}

/// IRI expansion during context processing (see [`expand_iri_with`]).
fn expand_iri_local(env: &Env, value: &str, document_relative: bool, vocab: bool, st: DefState, opts: Options) -> (r: Result<(Term, DefState), Error<CannotLoad>>)
    requires
        st.wf(),
    ensures
        exp_view(r) == expand_iri_with(env@, value@, document_relative, vocab, st@, opts),
        exp_ok(st@, r),
    decreases env.depth, 0int, undefined(env@.merged, st@.defined) as int, 2int,
{
    match Keyword::try_from_str(value) {
        Some(k) => {
            return Ok((Term::Keyword(k), st));
        },
        None => {},
    }
    if crate::syntax::is_keyword_like(value) {
        let mut st = st;
        push_warning(&mut st.warnings, Warning::KeywordLikeValue(to_string(value)));
        return Ok((Term::Null, st));
    }
    let no_override = opts.with_no_override();
    let ghost st0 = st@;
    let s1 = match define(env, value, st, None, false, no_override) {
        Ok(s) => s,
        Err(e) => {
            return Err(e);
        },
    };
    proof {
        lemma_grow_id(st0, s1@);
    }
    match expand_defined(&s1.context, value, vocab) {
        Some(t) => {
            return Ok((t, s1));
        },
        None => {},
    }
    if contains_after_first(value, ':') {
        match expand_blank_exec(value) {
            Some(t) => {
                return Ok((t, s1));
            },
            None => {},
        }
        match split_compact_iri(value) {
            Some((prefix, _)) => {
                let ghost s1v = s1@;
                proof {
                    lemma_undefined_mono(env@.merged, st0.defined, s1v.defined);
                }
                let s2 = match define(env, prefix, s1, None, false, no_override) {
                    Ok(s) => s,
                    Err(e) => {
                        return Err(e);
                    },
                };
                proof {
                    lemma_grow_id(s1v, s2@);
                }
                match expand_compact_exec(&s2.context, value) {
                    Some(t) => {
                        return Ok((t, s2));
                    },
                    None => {},
                }
                if check_iri(value) {
                    return Ok((Term::Ref(Reference::Id(to_string(value))), s2));
                }
                let (t, warning) = expand_tail_exec(&s2.context, value, document_relative, vocab);
                let mut s2 = s2;
                match warning {
                    Some(x) => push_warning(&mut s2.warnings, x),
                    None => {},
                }
                return Ok((t, s2));
            },
            None => {},
        }
        if check_iri(value) {
            return Ok((Term::Ref(Reference::Id(to_string(value))), s1));
        }
    }
    let (t, warning) = expand_tail_exec(&s1.context, value, document_relative, vocab);
    let mut s1 = s1;
    match warning {
        Some(x) => push_warning(&mut s1.warnings, x),
        None => {},
    }
    Ok((t, s1))
}

/// The definition of a term whose definition has started (see [`define_new`]).
fn define_new_term(env: &Env, term: &str, value: &Json, st: DefState, base: Option<&String>, protected: bool, opts: Options) -> (r: Result<DefState, Error<CannotLoad>>)
    requires
        st.wf(),
    ensures
        def_view(r) == define_new(env@, term@, value@, st@, opt_ref_str(base), protected, opts),
        def_ok(st@, r),
    decreases env.depth, 0int, undefined(env@.merged, st@.defined) as int, 12int,
{
    match keyword_check_exec(term, value, opts) {
        Err(e) => Err(e),
        Ok(false) => {
            let mut st = st;
            push_warning(&mut st.warnings, Warning::KeywordLikeTerm(to_string(term)));
            Ok(st)
        },
        Ok(true) => {
            let mut st = st;
            let prev = st.context.set(term, None);
            match wrap_check_exec(value) {
                Err(e) => Err(e),
                Ok(simple) => match protected_value_exec(value, protected, opts) {
                    Err(e) => Err(e),
                    Ok(p) => type_step(env, term, value, simple, prev, TermDefinition::new(p), st, base, opts),
                },
            }
        },
    }
}

/// The type mapping step (see [`define_type`]).
fn type_step(env: &Env, term: &str, value: &Json, simple: bool, prev: Option<TermDefinition>, def: TermDefinition, st: DefState, base: Option<&String>, opts: Options) -> (r: Result<DefState, Error<CannotLoad>>)
    requires
        st.wf(),
    ensures
        def_view(r) == define_type(env@, term@, value@, simple, opt_def(prev), def@, st@, opt_ref_str(base), opts),
        def_ok(st@, r),
    decreases env.depth, 0int, undefined(env@.merged, st@.defined) as int, 11int,
{
    match value_get_exec(value, "@type") {
        None => reverse_step(env, term, value, simple, prev, def, st, base, opts),
        Some(Json::String(t)) => {
            let ghost st0 = st@;
            match expand_iri_local(env, t.as_str(), false, true, st, opts) {
                Err(e) => Err(e),
                Ok((typ, s1)) => {
                    proof {
                        lemma_grow_id(st0, s1@);
                        lemma_undefined_mono(env@.merged, st0.defined, s1@.defined);
                    }
                    match type_mapping_exec(typ, opts) {
                        Err(e) => Err(e),
                        Ok(ty) => {
                            let mut def = def;
                            def.typ = Some(ty);
                            reverse_step(env, term, value, simple, prev, def, s1, base, opts)
                        },
                    }
                },
            }
        },
        Some(_) => Err(Error::InvalidTypeMapping),
    }
}

/// The reverse property step (see [`define_reverse`]).
fn reverse_step(env: &Env, term: &str, value: &Json, simple: bool, prev: Option<TermDefinition>, def: TermDefinition, st: DefState, base: Option<&String>, opts: Options) -> (r: Result<DefState, Error<CannotLoad>>)
    requires
        st.wf(),
    ensures
        def_view(r) == define_reverse(env@, term@, value@, simple, opt_def(prev), def@, st@, opt_ref_str(base), opts),
        def_ok(st@, r),
    decreases env.depth, 0int, undefined(env@.merged, st@.defined) as int, 10int,
{
    match value_get_exec(value, "@reverse") {
        None => id_step(env, term, value, simple, prev, def, st, base, opts),
        Some(rv) => {
            if value_id_exec(value).is_some() || value_get_exec(value, "@nest").is_some() {
                return Err(Error::InvalidReverseProperty);
            }
            match rv {
                Json::String(r) => {
                    if crate::syntax::is_keyword_like(r.as_str()) {
                        let mut st = st;
                        push_warning(&mut st.warnings, Warning::KeywordLikeValue(r.clone()));
                        return Ok(st);
                    }
                    let ghost st0 = st@;
                    match expand_iri_local(env, r.as_str(), false, true, st, opts) {
                        Err(e) => Err(e),
                        Ok((t, s1)) => {
                            proof {
                                lemma_grow_id(st0, s1@);
                            }
                            match t {
                                Term::Ref(m) => {
                                    if !m.is_valid() {
                                        return Err(Error::InvalidIriMapping);
                                    }
                                    match reverse_container_exec(value_get_exec(value, "@container")) {
                                        Err(e) => Err(e),
                                        Ok(c) => {
                                            let mut def = def;
                                            def.value = Some(Term::Ref(m));
                                            def.container = c;
                                            def.reverse_property = true;
                                            let mut s1 = s1;
                                            let _ = s1.context.set(term, Some(def));
                                            s1.defined.set(term, true);
                                            Ok(s1)
                                        },
                                    }
                                },
                                _ => Err(Error::InvalidIriMapping),
                            }
                        },
                    }
                },
                _ => Err(Error::InvalidIriMapping),
            }
        },
    }
}

/// The IRI mapping step (see [`define_id`]).
fn id_step(env: &Env, term: &str, value: &Json, simple: bool, prev: Option<TermDefinition>, def: TermDefinition, st: DefState, base: Option<&String>, opts: Options) -> (r: Result<DefState, Error<CannotLoad>>)
    requires
        st.wf(),
    ensures
        def_view(r) == define_id(env@, term@, value@, simple, opt_def(prev), def@, st@, opt_ref_str(base), opts),
        def_ok(st@, r),
    decreases env.depth, 0int, undefined(env@.merged, st@.defined) as int, 9int,
{
    let idv = value_id_exec(value);
    let explicit = match idv {
        Some(Json::String(s)) => !crate::text::str_eq(s.as_str(), term),
        Some(_) => true,
        None => false,
    };
    if explicit {
        match idv {
            Some(Json::Null) => scoped_step(env, term, value, prev, def, st, base, opts),
            Some(Json::String(s)) => id_value_step(env, term, s.as_str(), value, simple, prev, def, st, base, opts),
            _ => Err(Error::InvalidIriMapping),
        }
    } else if contains_after_first(term, ':') {
        proof {
            lemma_find(term@, ':');
        }
        let i = match find_char(term, ':') {
            Some(i) => i,
            None => {
                return Err(Error::InvalidIriMapping);
            },
        };
        let n = term.unicode_len();
        let prefix = term.substring_char(0, i);
        let suffix = term.substring_char(i + 1, n);
        let ghost st0 = st@;
        let s1 = match define(env, prefix, st, None, false, opts.with_no_override()) {
            Ok(s) => s,
            Err(e) => {
                return Err(e);
            },
        };
        proof {
            lemma_grow_id(st0, s1@);
            lemma_undefined_mono(env@.merged, st0.defined, s1@.defined);
        }
        match compact_term_value_exec(&s1.context, term, prefix, suffix) {
            Err(e) => Err(e),
            Ok(t) => {
                let mut def = def;
                def.value = Some(t);
                scoped_step(env, term, value, prev, def, s1, base, opts)
            },
        }
    } else {
        match simple_term_value_exec(&st.context, term) {
            Err(e) => Err(e),
            Ok(t) => {
                let mut def = def;
                def.value = Some(t);
                scoped_step(env, term, value, prev, def, st, base, opts)
            },
        }
    }
}

/// The IRI mapping step for an `@id` string (see [`define_id_value`]).
fn id_value_step(env: &Env, term: &str, s: &str, value: &Json, simple: bool, prev: Option<TermDefinition>, def: TermDefinition, st: DefState, base: Option<&String>, opts: Options) -> (r: Result<DefState, Error<CannotLoad>>)
    requires
        st.wf(),
    ensures
        def_view(r) == define_id_value(env@, term@, s@, value@, simple, opt_def(prev), def@, st@, opt_ref_str(base), opts),
        def_ok(st@, r),
    decreases env.depth, 0int, undefined(env@.merged, st@.defined) as int, 8int,
{
    if crate::syntax::is_keyword_like(s) && !crate::syntax::is_keyword(s) {
        let mut st = st;
        push_warning(&mut st.warnings, Warning::KeywordLikeValue(to_string(s)));
        return Ok(st);
    }
    let ghost st0 = st@;
    let (t, s1) = match expand_iri_local(env, s, false, true, st, opts) {
        Ok(x) => x,
        Err(e) => {
            return Err(e);
        },
    };
    proof {
        lemma_grow_id(st0, s1@);
        lemma_undefined_mono(env@.merged, st0.defined, s1@.defined);
    }
    match &t {
        Term::Keyword(Keyword::Context) => {
            return Err(Error::InvalidKeywordAlias);
        },
        Term::Ref(Reference::Invalid(_)) => {
            return Err(Error::InvalidIriMapping);
        },
        _ => {},
    }
    let mut def = def;
    def.value = Some(t);
    id_check_step(env, term, value, simple, prev, def, s1, base, opts)
}

/// The IRI mapping step, continued (see [`define_id_check`]).
fn id_check_step(env: &Env, term: &str, value: &Json, simple: bool, prev: Option<TermDefinition>, def: TermDefinition, st: DefState, base: Option<&String>, opts: Options) -> (r: Result<DefState, Error<CannotLoad>>)
    requires
        st.wf(),
    ensures
        def_view(r) == define_id_check(env@, term@, value@, simple, opt_def(prev), def@, st@, opt_ref_str(base), opts),
        def_ok(st@, r),
    decreases env.depth, 0int, undefined(env@.merged, st@.defined) as int, 7int,
{
    let mut def = def;
    let mut st = st;
    let ghost st0 = st@;
    if contains_between_boundaries(term, ':') || contains_char(term, '/') {
        st.defined.set(term, true);
        proof {
            lemma_undefined_mono(env@.merged, st0.defined, st@.defined);
        }
        let ghost s1b = st@;
        let (t2, s2) = match expand_iri_local(env, term, false, true, st, opts) {
            Ok(x) => x,
            Err(e) => {
                return Err(e);
            },
        };
        proof {
            lemma_grow_id(s1b, s2@);
        }
        let same = match &def.value {
            Some(t) => t2.same_as(t),
            None => false,
        };
        if !same {
            return Err(Error::InvalidIriMapping);
        }
        proof {
            assert(st0.defined.dom().subset_of(s1b.defined.dom()));
            assert(st0.defined.dom().subset_of(s2@.defined.dom()));
            lemma_undefined_mono(env@.merged, st0.defined, s2@.defined);
        }
        st = s2;
    }
    let flag = match &def.value {
        Some(t) => !contains_char(term, ':') && !contains_char(term, '/') && simple && is_gen_delim_or_blank(t),
        None => false,
    };
    if flag {
        def.prefix = true;
    }
    scoped_step(env, term, value, prev, def, st, base, opts)
}

/// The container, index and scoped context steps, then the last steps
/// (see [`define_scoped`]).
fn scoped_step(env: &Env, term: &str, value: &Json, prev: Option<TermDefinition>, def: TermDefinition, st: DefState, base: Option<&String>, opts: Options) -> (r: Result<DefState, Error<CannotLoad>>)
    requires
        st.wf(),
    ensures
        def_view(r) == define_scoped(env@, term@, value@, opt_def(prev), def@, st@, opt_ref_str(base), opts),
        def_ok(st@, r),
    decreases env.depth, 0int, undefined(env@.merged, st@.defined) as int, 6int,
{
    let mut def = def;
    match container_step_exec(value, &mut def, opts) {
        Ok(()) => {},
        Err(e) => {
            return Err(e);
        },
    }
    match index_step_exec(&st.context, value, &mut def, opts) {
        Ok(()) => {},
        Err(e) => {
            return Err(e);
        },
    }
    match value_get_exec(value, "@context") {
        None => {
            let mut st = st;
            match finish_step_exec(term, value, prev, def, &mut st, opts) {
                Ok(()) => Ok(st),
                Err(e) => Err(e),
            }
        },
        Some(c) => context_step(env, term, value, c, prev, def, st, base, opts),
    }
}

/// The scoped context step (see [`define_context`]).
fn context_step(env: &Env, term: &str, value: &Json, c: &Json, prev: Option<TermDefinition>, def: TermDefinition, st: DefState, base: Option<&String>, opts: Options) -> (r: Result<DefState, Error<CannotLoad>>)
    requires
        st.wf(),
    ensures
        def_view(r) == define_context(env@, term@, value@, c@, opt_def(prev), def@, st@, opt_ref_str(base), opts),
        def_ok(st@, r),
    decreases env.depth, 0int, undefined(env@.merged, st@.defined) as int, 5int,
{
    if opts.processing_mode == ProcessingMode::JsonLd1_0 {
        return Err(Error::InvalidTermDefinition);
    }
    if env.depth == 0 {
        return Err(Error::InvalidScopedContext);
    }
    let DefState { context, defined, warnings } = st;
    let w = match process_local(env.store, &context, c, env.stack, base, opts.with_override(), env.depth - 1, warnings) {
        Ok((_, w)) => w,
        Err(_) => {
            return Err(Error::InvalidScopedContext);
        },
    };
    let mut def = def;
    def.context = Some(c.deep_clone());
    def.base_url = match base {
        Some(b) => Some(b.clone()),
        None => None,
    };
    let mut st = DefState { context, defined, warnings: w };
    match finish_step_exec(term, value, prev, def, &mut st, opts) {
        Ok(()) => Ok(st),
        Err(e) => Err(e),
    }
}


/// The nesting depth of remote and scoped contexts that processing allows.
/// Along a chain of nested contexts, the stack of remote contexts grows at
/// most as many times as the store has documents, and between two such
/// steps each nested context is a distinct JSON value of the store or of
/// the local context (coming back to one would repeat forever). So a chain
/// is shorter than one more than the store's length times one more than
/// the number of JSON values of the store and of the local context (capped
/// at the largest `usize`).
pub open spec fn depth_bound(store: Seq<(Seq<char>, JsonV)>, local: JsonV) -> nat {
    cap(cap(store.len() + 1) * cap(cap(cap(json_size(JsonV::Object(store))) + cap(json_size(local))) + 1))
}

/// Computes [`depth_bound`].
pub fn context_depth_bound(store: &ContextStore, local: &Json) -> (r: usize)
    ensures
        r as nat == depth_bound(store@, local@),
{
    let values = store.size().saturating_add(local.size());
    let a = store.len().saturating_add(1);
    let b = values.saturating_add(1);
    match a.checked_mul(b) {
        Some(p) => p,
        None => usize::MAX,
    }
}

/// Processes the local context `local` against the active context `active`
/// with the given base URL and options, the remote documents of `store`
/// and no remote context being processed. Returns the new active context
/// and the warnings raised.
pub fn process_full(local: &Json, store: &ContextStore, active: &Context, base_url: Option<&String>, options: Options) -> (r: Result<(Context, Vec<Warning>), Error<CannotLoad>>)
    requires
        active.wf(),
    ensures
        proc_view(r) == process_spec(store@, active@, local@, Seq::empty(), opt_ref_str(base_url), options, depth_bound(store@, local@), Seq::empty()),
        proc_ok(r),
{
    let stack = ProcessingStack::new();
    let w: Vec<Warning> = Vec::new();
    proof {
        assert(warnings_view(w@) =~= Seq::<WarningV>::empty());
    }
    let depth = context_depth_bound(store, local);
    process_local(store, active, local, &stack, base_url, options, depth, w)
}

/// Processes the local context `local` against a new active context, with
/// the given base URL and the default options.
pub fn process(local: &Json, store: &ContextStore, base_url: Option<&String>) -> (r: Result<(Context, Vec<Warning>), Error<CannotLoad>>)
    ensures
        proc_view(r) == process_spec(store@, new_context(None), local@, Seq::empty(), opt_ref_str(base_url), crate::processing::default_options(), depth_bound(store@, local@), Seq::empty()),
        proc_ok(r),
{
    let active = Context::new(None);
    proof {
        assert(opt_str_view(None) == None::<Seq<char>>);
    }
    process_full(local, store, &active, base_url, Options::default())
}

/// A `null` local context resets a propagating active context: the result
/// is a new context with the original base URL of the active context,
/// unless a protected term stands in the way (without override).
pub proof fn lemma_null_resets(store: Seq<(Seq<char>, JsonV)>, active: ContextV, stack: Seq<Seq<char>>, base: Option<Seq<char>>, opts: Options, depth: nat, w: Seq<WarningV>)
    requires
        opts.propagate,
        opts.override_protected || !has_protected(active),
    ensures
        process_spec(store, active, JsonV::Null, stack, base, opts, depth, w)
            == Ok::<(ContextV, Seq<WarningV>), Error<Seq<char>>>((new_context(active.original_base_url), w)),
{
    reveal_with_fuel(process_items, 2);
}

/// A `null` local context is refused, with an invalid context
/// nullification, when the active context has a protected term and
/// protection is not overridden.
pub proof fn lemma_null_refused(store: Seq<(Seq<char>, JsonV)>, active: ContextV, stack: Seq<Seq<char>>, base: Option<Seq<char>>, opts: Options, depth: nat, w: Seq<WarningV>)
    requires
        !opts.override_protected,
        has_protected(active),
    ensures
        process_spec(store, active, JsonV::Null, stack, base, opts, depth, w)
            == Err::<(ContextV, Seq<WarningV>), Error<Seq<char>>>(Error::InvalidContextNullification),
{
    let result = if !opts.propagate && active.previous_context is None {
        ContextV { previous_context: Some(Box::new(active)), ..active }
    } else {
        active
    };
    assert(result.definitions == active.definitions);
    assert(has_protected(result));
    reveal_with_fuel(process_items, 2);
}

/// An empty list of local contexts leaves a propagating active context as
/// it is.
pub proof fn lemma_empty_list_identity(store: Seq<(Seq<char>, JsonV)>, active: ContextV, stack: Seq<Seq<char>>, base: Option<Seq<char>>, opts: Options, depth: nat, w: Seq<WarningV>)
    requires
        opts.propagate,
    ensures
        process_spec(store, active, JsonV::Array(Seq::empty()), stack, base, opts, depth, w)
            == Ok::<(ContextV, Seq<WarningV>), Error<Seq<char>>>((active, w)),
{
}

/// A reference to a remote context that is already being processed leaves
/// a propagating active context as it is (the context is not loaded again).
pub proof fn lemma_cycle_skipped(store: Seq<(Seq<char>, JsonV)>, active: ContextV, s: Seq<char>, stack: Seq<Seq<char>>, base: Option<Seq<char>>, opts: Options, depth: nat, w: Seq<WarningV>)
    requires
        opts.propagate,
        resolve_spec(s, base) is Some,
        stack.contains(resolve_spec(s, base)->0),
    ensures
        process_spec(store, active, JsonV::String(s), stack, base, opts, depth, w)
            == Ok::<(ContextV, Seq<WarningV>), Error<Seq<char>>>((active, w)),
{
    reveal_with_fuel(process_items, 2);
}

/// A reference to a remote context that the store lacks is answered with a
/// loading failure that names the resolved IRI.
pub proof fn lemma_missing_remote_named(store: Seq<(Seq<char>, JsonV)>, active: ContextV, s: Seq<char>, stack: Seq<Seq<char>>, base: Option<Seq<char>>, opts: Options, depth: nat, w: Seq<WarningV>)
    requires
        opts.propagate,
        resolve_spec(s, base) is Some,
        !stack.contains(resolve_spec(s, base)->0),
        store_get(store, resolve_spec(s, base)->0) is None,
    ensures
        process_spec(store, active, JsonV::String(s), stack, base, opts, depth, w)
            == Err::<(ContextV, Seq<WarningV>), Error<Seq<char>>>(Error::ContextLoadingFailed(resolve_spec(s, base)->0)),
{
    reveal_with_fuel(process_items, 2);
}

/// Without override, a protected definition is only ever replaced by the
/// same definition, up to the protected flag, and the replacement is
/// protected: the last step of a term definition either fails or keeps it.
pub proof fn lemma_protected_definition_kept(term: Seq<char>, value: JsonV, prev: TermDefinitionV, def: TermDefinitionV, st: DefStateV, opts: Options)
    requires
        prev.protected,
        !opts.override_protected,
        finish_step(term, value, Some(prev), def, st, opts) is Ok,
    ensures
        ({
            let s = finish_step(term, value, Some(prev), def, st, opts)->Ok_0;
            &&& s.ctx.definitions.contains_key(term)
            &&& crate::context::same_modulo_protected(s.ctx.definitions[term], prev)
            &&& s.ctx.definitions[term].protected
        }),
{
}
/// A context definition whose `@vocab` entry is `null` leaves no
/// vocabulary mapping, whatever the active context had.
pub proof fn lemma_null_vocab_removes_mapping(ctx: ContextV, merged: Seq<(Seq<char>, JsonV)>, stack: Seq<Seq<char>>, opts: Options, w: Seq<WarningV>)
    requires
        entries_get(merged, "@vocab"@) == Some(JsonV::Null),
    ensures
        object_settings(ctx, merged, stack, opts, w) matches Ok((c, _)) ==> c.vocabulary is None,
{
}

/// A context definition whose `@language` entry is `null` leaves no
/// default language; one whose `@direction` entry is `null` leaves no
/// default base direction; outside remote contexts, one whose `@base`
/// entry is `null` leaves no base IRI.
pub proof fn lemma_null_settings_remove_defaults(ctx: ContextV, merged: Seq<(Seq<char>, JsonV)>, stack: Seq<Seq<char>>, opts: Options, w: Seq<WarningV>)
    ensures
        entries_get(merged, "@language"@) == Some(JsonV::Null) ==>
            (object_settings(ctx, merged, stack, opts, w) matches Ok((c, _)) ==> c.default_language is None),
        entries_get(merged, "@direction"@) == Some(JsonV::Null) ==>
            (object_settings(ctx, merged, stack, opts, w) matches Ok((c, _)) ==> c.default_base_direction is None),
        entries_get(merged, "@base"@) == Some(JsonV::Null) && stack.len() == 0 ==>
            (object_settings(ctx, merged, stack, opts, w) matches Ok((c, _)) ==> c.base_iri is None),
{
}

/// A context definition without `@vocab` keeps the vocabulary mapping of
/// the active context.
pub proof fn lemma_absent_vocab_kept(ctx: ContextV, merged: Seq<(Seq<char>, JsonV)>, stack: Seq<Seq<char>>, opts: Options, w: Seq<WarningV>)
    requires
        entries_get(merged, "@vocab"@) is None,
    ensures
        object_settings(ctx, merged, stack, opts, w) matches Ok((c, _)) ==> c.vocabulary == ctx.vocabulary,
{
}

} // verus!

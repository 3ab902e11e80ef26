//! The steps of context processing that make no recursive call, as
//! executable functions: the options and entries of a local context
//! object, the settings it makes, and the IRI mappings of terms built
//! without expansion.
use vstd::prelude::*;
use crate::context::{Context, ContextV, opt_str_view};
use crate::definition::opt_json;
use crate::error::{Error, Warning, WarningV};
use crate::id::{Reference, ReferenceV, Term, TermV};
use crate::iri::{check_iri, check_iri_ref, check_language_tag};
use crate::json::{Json, JsonV, entries_view, entries_get, object_get, lemma_entries_view};
use crate::loader::{CannotLoad, ContextStore, store_get, error_view, is_error};
use crate::process::{
    propagate_option, remote_context_of, import_entries, object_local, object_settings,
    base_step, vocab_step, language_default_step, direction_default_step, protected_flag,
    reserved_key, compact_term_value, simple_term_value,
};
use crate::processing::{Options, ProcessingStack, resolve_iri, expand_iri_simple, warnings_view, push_warning};
use crate::syntax::{Direction, Keyword, ProcessingMode};
use crate::text::{str_eq, contains_char, to_string, concat};

verus! {

/// The view of a result that is a term.
pub open spec fn term_result(r: Result<Term, Error<CannotLoad>>) -> Result<TermV, Error<Seq<char>>> {
    match r {
        Ok(t) => Ok(t@),
        Err(e) => Err(error_view(e)),
    }
}

/// The options given by the `@propagate` entry (see [`propagate_option`]).
pub fn propagate_option_exec(local: &Json, opts: Options) -> (r: Result<Options, Error<CannotLoad>>)
    ensures
        match propagate_option(local@, opts) {
            Ok(o) => r == Ok::<Options, Error<CannotLoad>>(o),
            Err(e) => is_error(r, e),
        },
{
    match local {
        Json::Object(o) => match object_get(o, "@propagate") {
            Some(v) => if opts.processing_mode == ProcessingMode::JsonLd1_0 {
                Err(Error::InvalidContextEntry)
            } else {
                match v {
                    Json::Boolean(b) => Ok(Options { propagate: *b, ..opts }),
                    _ => Err(Error::InvalidPropagateValue),
                }
            },
            None => Ok(opts),
        },
        _ => Ok(opts),
    }
}

/// The context of a remote document (see [`remote_context_of`]).
pub fn remote_context_exec(doc: &Json) -> (r: Option<&Json>)
    ensures
        opt_json(r) == remote_context_of(doc@),
{
    match doc {
        Json::Object(o) => object_get(o, "@context"),
        _ => None,
    }
}

proof fn lemma_entries_view_push(v: Seq<(String, Json)>, x: (String, Json))
    ensures
        entries_view(v.push(x)) == entries_view(v).push((x.0@, x.1@)),
{
    assert(v.push(x).drop_last() =~= v);
}

/// Copies a list of entries.
pub fn clone_entries(o: &Vec<(String, Json)>) -> (r: Vec<(String, Json)>)
    ensures
        entries_view(r@) == entries_view(o@),
{
    proof {
        lemma_entries_view(o@);
    }
    let mut out: Vec<(String, Json)> = Vec::new();
    let mut j: usize = 0;
    while j < o.len()
        invariant
            j <= o@.len(),
            entries_view(o@).len() == o@.len(),
            forall|k: int| 0 <= k < o@.len() ==> #[trigger] entries_view(o@)[k] == (o@[k].0@, o@[k].1@),
            entries_view(out@) == entries_view(o@).subrange(0, j as int),
        decreases o@.len() - j,
    {
        let ghost before = out@;
        let entry = (o[j].0.clone(), o[j].1.deep_clone());
        out.push(entry);
        proof {
            lemma_entries_view_push(before, entry);
            assert(entries_view(o@).subrange(0, j + 1) =~= entries_view(o@).subrange(0, j as int).push(entries_view(o@)[j as int]));
        }
        j = j + 1;
    }
    proof {
        assert(entries_view(o@).subrange(0, o@.len() as int) =~= entries_view(o@));
    }
    out
}

/// The entries of an imported context that `o` does not override, then
/// those of `o`.
pub fn merge_import(io: &Vec<(String, Json)>, o: &Vec<(String, Json)>) -> (r: Vec<(String, Json)>)
    ensures
        entries_view(r@) == import_entries(entries_view(io@), entries_view(o@)) + entries_view(o@),
{
    proof {
        lemma_entries_view(io@);
        lemma_entries_view(o@);
    }
    let ghost iov = entries_view(io@);
    let ghost ov = entries_view(o@);
    let mut out: Vec<(String, Json)> = Vec::new();
    let mut i: usize = 0;
    proof {
        assert(iov.subrange(0, 0) =~= Seq::<(Seq<char>, JsonV)>::empty());
        assert(entries_view(out@) =~= Seq::<(Seq<char>, JsonV)>::empty());
    }
    while i < io.len()
        invariant
            i <= io@.len(),
            iov == entries_view(io@),
            ov == entries_view(o@),
            iov.len() == io@.len(),
            forall|k: int| 0 <= k < io@.len() ==> #[trigger] iov[k] == (io@[k].0@, io@[k].1@),
            entries_view(out@) == import_entries(iov.subrange(0, i as int), ov),
        decreases io@.len() - i,
    {
        let ghost before = out@;
        let ghost sub = iov.subrange(0, i + 1);
        proof {
            assert(sub.drop_last() =~= iov.subrange(0, i as int));
            assert(sub.last() == iov[i as int]);
        }
        if object_get(o, io[i].0.as_str()).is_none() {
            let entry = (io[i].0.clone(), io[i].1.deep_clone());
            out.push(entry);
            proof {
                lemma_entries_view_push(before, entry);
            }
        }
        i = i + 1;
    }
    proof {
        assert(iov.subrange(0, io@.len() as int) =~= iov);
    }
    let ghost head = entries_view(out@);
    let mut j: usize = 0;
    proof {
        assert(head + ov.subrange(0, 0) =~= head);
    }
    while j < o.len()
        invariant
            j <= o@.len(),
            ov == entries_view(o@),
            ov.len() == o@.len(),
            forall|k: int| 0 <= k < o@.len() ==> #[trigger] ov[k] == (o@[k].0@, o@[k].1@),
            entries_view(out@) == head + ov.subrange(0, j as int),
        decreases o@.len() - j,
    {
        let ghost before = out@;
        let entry = (o[j].0.clone(), o[j].1.deep_clone());
        out.push(entry);
        proof {
            lemma_entries_view_push(before, entry);
            assert(head + ov.subrange(0, j + 1) =~= (head + ov.subrange(0, j as int)).push(ov[j as int]));
        }
        j = j + 1;
    }
    proof {
        assert(ov.subrange(0, o@.len() as int) =~= ov);
    }
    out
}

/// Checks the `@version` entry of a context definition.
fn version_check_exec(o: &Vec<(String, Json)>, opts: Options) -> (r: Option<Error<CannotLoad>>)
    ensures
        match crate::process::version_check(entries_view(o@), opts) {
            Some(e) => r matches Some(f) && error_view(f) == e,
            None => r is None,
        },
{
    match object_get(o, "@version") {
        Some(v) => {
            let ok = match v {
                Json::Number(n) => crate::number::is_one_point_one(n.as_str()),
                _ => false,
            };
            if !ok {
                Some(Error::InvalidVersionValue)
            } else if opts.processing_mode == ProcessingMode::JsonLd1_0 {
                Some(Error::ProcessingModeConflict)
            } else {
                None
            }
        },
        None => None,
    }
}

/// The entries of a context definition, merged with those of the context
/// it imports (see [`object_local`]).
pub fn object_local_exec(store: &ContextStore, o: &Vec<(String, Json)>, base: Option<&String>, opts: Options) -> (r: Result<Vec<(String, Json)>, Error<CannotLoad>>)
    ensures
        match object_local(store@, entries_view(o@), opt_str_view(match base { Some(b) => Some(*b), None => None }), opts) {
            Ok(m) => r matches Ok(v) && entries_view(v@) == m,
            Err(e) => is_error(r, e),
        },
{
    match version_check_exec(o, opts) {
        Some(e) => {
            return Err(e);
        },
        None => {},
    }
    match object_get(o, "@import") {
        None => Ok(clone_entries(o)),
        Some(iv) => {
            if opts.processing_mode == ProcessingMode::JsonLd1_0 {
                return Err(Error::InvalidContextEntry);
            }
            match iv {
                Json::String(s) => match resolve_iri(s.as_str(), base) {
                    None => Err(Error::InvalidImportValue),
                    Some(iri) => match store.get(iri.as_str()) {
                        None => Err(Error::ContextLoadingFailed(CannotLoad(iri))),
                        Some(doc) => match remote_context_exec(doc) {
                            Some(Json::Object(io)) => {
                                if object_get(io, "@import").is_some() {
                                    Err(Error::InvalidContextEntry)
                                } else {
                                    Ok(merge_import(io, o))
                                }
                            },
                            _ => Err(Error::InvalidRemoteContext),
                        },
                    },
                },
                _ => Err(Error::InvalidImportValue),
            }
        },
    }
}

/// Applies the `@base` entry (see [`base_step`]).
fn base_step_exec(ctx: &mut Context, merged: &Vec<(String, Json)>, stack: &ProcessingStack) -> (r: Result<(), Error<CannotLoad>>)
    requires
        old(ctx).wf(),
    ensures
        final(ctx).wf(),
        match base_step(old(ctx)@, entries_view(merged@), stack@) {
            Ok(c) => r is Ok && final(ctx)@ == c,
            Err(e) => is_error(r, e),
        },
{
    if !stack.is_empty() {
        return Ok(());
    }
    match object_get(merged, "@base") {
        None => Ok(()),
        Some(Json::Null) => {
            ctx.set_base_iri(None);
            Ok(())
        },
        Some(Json::String(v)) => {
            if !check_iri_ref(v.as_str()) {
                Err(Error::InvalidBaseIri)
            } else if check_iri(v.as_str()) {
                ctx.set_base_iri(Some(v.clone()));
                Ok(())
            } else {
                let resolved = resolve_iri(v.as_str(), ctx.base_iri());
                match resolved {
                    Some(r) => {
                        ctx.set_base_iri(Some(r));
                        Ok(())
                    },
                    None => Err(Error::InvalidBaseIri),
                }
            }
        },
        Some(_) => Err(Error::InvalidBaseIri),
    }
}

/// Applies the `@vocab` entry (see [`vocab_step`]).
fn vocab_step_exec(ctx: &mut Context, merged: &Vec<(String, Json)>, w: &mut Vec<Warning>) -> (r: Result<(), Error<CannotLoad>>)
    requires
        old(ctx).wf(),
    ensures
        final(ctx).wf(),
        match vocab_step(old(ctx)@, entries_view(merged@), warnings_view(old(w)@)) {
            Ok((c, ws)) => r is Ok && final(ctx)@ == c && warnings_view(final(w)@) == ws,
            Err(e) => is_error(r, e),
        },
{
    match object_get(merged, "@vocab") {
        None => Ok(()),
        Some(Json::Null) => {
            ctx.set_vocabulary(None);
            Ok(())
        },
        Some(Json::String(v)) => {
            let (t, warning) = expand_iri_simple(ctx, v.as_str(), true, true);
            match t {
                Term::Ref(r) => {
                    ctx.set_vocabulary(Some(Term::Ref(r)));
                    match warning {
                        Some(x) => push_warning(w, x),
                        None => {},
                    }
                    Ok(())
                },
                _ => Err(Error::InvalidVocabMapping),
            }
        },
        Some(_) => Err(Error::InvalidVocabMapping),
    }
}

/// Applies the `@language` entry (see [`language_default_step`]).
fn language_default_step_exec(ctx: &mut Context, merged: &Vec<(String, Json)>, w: &mut Vec<Warning>) -> (r: Result<(), Error<CannotLoad>>)
    requires
        old(ctx).wf(),
    ensures
        final(ctx).wf(),
        match language_default_step(old(ctx)@, entries_view(merged@), warnings_view(old(w)@)) {
            Ok((c, ws)) => r is Ok && final(ctx)@ == c && warnings_view(final(w)@) == ws,
            Err(e) => is_error(r, e),
        },
{
    match object_get(merged, "@language") {
        None => Ok(()),
        Some(Json::Null) => {
            ctx.set_default_language(None);
            Ok(())
        },
        Some(Json::String(l)) => {
            if !check_language_tag(l.as_str()) {
                push_warning(w, Warning::MalformedLanguageTag(l.clone()));
            }
            ctx.set_default_language(Some(l.clone()));
            Ok(())
        },
        Some(_) => Err(Error::InvalidDefaultLanguage),
    }
}

/// Applies the `@direction` entry (see [`direction_default_step`]).
fn direction_default_step_exec(ctx: &mut Context, merged: &Vec<(String, Json)>, opts: Options) -> (r: Result<(), Error<CannotLoad>>)
    requires
        old(ctx).wf(),
    ensures
        final(ctx).wf(),
        match direction_default_step(old(ctx)@, entries_view(merged@), opts) {
            Ok(c) => r is Ok && final(ctx)@ == c,
            Err(e) => is_error(r, e),
        },
{
    match object_get(merged, "@direction") {
        None => Ok(()),
        Some(v) => {
            if opts.processing_mode == ProcessingMode::JsonLd1_0 {
                return Err(Error::InvalidContextEntry);
            }
            match v {
                Json::Null => {
                    ctx.set_default_base_direction(None);
                    Ok(())
                },
                Json::String(s) => {
                    if str_eq(s.as_str(), "ltr") {
                        ctx.set_default_base_direction(Some(Direction::Ltr));
                        Ok(())
                    } else if str_eq(s.as_str(), "rtl") {
                        ctx.set_default_base_direction(Some(Direction::Rtl));
                        Ok(())
                    } else {
                        Err(Error::InvalidBaseDirection)
                    }
                },
                _ => Err(Error::InvalidBaseDirection),
            }
        },
    }
}

/// Applies the settings of a context definition (see [`object_settings`]).
pub fn object_settings_exec(ctx: Context, merged: &Vec<(String, Json)>, stack: &ProcessingStack, opts: Options, w: Vec<Warning>) -> (r: Result<(Context, Vec<Warning>), Error<CannotLoad>>)
    requires
        ctx.wf(),
    ensures
        match object_settings(ctx@, entries_view(merged@), stack@, opts, warnings_view(w@)) {
            Ok((c, ws)) => r matches Ok((c2, w2)) && c2.wf() && c2@ == c && warnings_view(w2@) == ws,
            Err(e) => is_error(r, e),
        },
{
    let mut ctx = ctx;
    let mut w = w;
    match base_step_exec(&mut ctx, merged, stack) {
        Ok(()) => {},
        Err(e) => {
            return Err(e);
        },
    }
    match vocab_step_exec(&mut ctx, merged, &mut w) {
        Ok(()) => {},
        Err(e) => {
            return Err(e);
        },
    }
    match language_default_step_exec(&mut ctx, merged, &mut w) {
        Ok(()) => {},
        Err(e) => {
            return Err(e);
        },
    }
    match direction_default_step_exec(&mut ctx, merged, opts) {
        Ok(()) => {},
        Err(e) => {
            return Err(e);
        },
    }
    Ok((ctx, w))
}

/// The protected flag of a context definition (see [`protected_flag`]).
pub fn protected_flag_exec(merged: &Vec<(String, Json)>) -> (r: bool)
    ensures
        r == protected_flag(entries_view(merged@)),
{
    match object_get(merged, "@protected") {
        Some(Json::Boolean(b)) => *b,
        _ => false,
    }
}

/// Checks that a key of a context definition is not a term.
pub fn reserved_key_exec(k: &str) -> (r: bool)
    ensures
        r == reserved_key(k@),
{
    str_eq(k, "@base") || str_eq(k, "@direction") || str_eq(k, "@import") || str_eq(k, "@language")
        || str_eq(k, "@propagate") || str_eq(k, "@protected") || str_eq(k, "@version") || str_eq(k, "@vocab")
}

/// The IRI mapping of a compact term (see [`compact_term_value`]).
pub fn compact_term_value_exec(ctx: &Context, term: &str, prefix: &str, suffix: &str) -> (r: Result<Term, Error<CannotLoad>>)
    requires
        ctx.wf(),
    ensures
        term_result(r) == compact_term_value(ctx@, term@, prefix@, suffix@),
{
    match ctx.get(prefix) {
        Some(pd) => {
            let text = match &pd.value {
                Some(Term::Ref(Reference::Id(iri))) => concat(iri.as_str(), suffix),
                _ => to_string(suffix),
            };
            proof {
                assert(Seq::<char>::empty() + suffix@ =~= suffix@);
            }
            if check_iri(text.as_str()) {
                Ok(Term::Ref(Reference::Id(text)))
            } else {
                Err(Error::InvalidIriMapping)
            }
        },
        None => {
            if str_eq(prefix, "_") {
                proof {
                    reveal_strlit("_");
                    assert("_"@ =~= seq!['_']);
                }
                Ok(Term::Ref(Reference::Blank(to_string(term))))
            } else {
                proof {
                    reveal_strlit("_");
                    assert("_"@ =~= seq!['_']);
                }
                if check_iri(term) {
                    Ok(Term::Ref(Reference::Id(to_string(term))))
                } else {
                    Err(Error::InvalidIriMapping)
                }
            }
        },
    }
}

/// The IRI mapping of a term without colon (see [`simple_term_value`]).
pub fn simple_term_value_exec(ctx: &Context, term: &str) -> (r: Result<Term, Error<CannotLoad>>)
    requires
        ctx.wf(),
    ensures
        term_result(r) == simple_term_value(ctx@, term@),
{
    if contains_char(term, '/') {
        let (t, _) = expand_iri_simple(ctx, term, false, true);
        match t {
            Term::Ref(Reference::Id(id)) => Ok(Term::Ref(Reference::Id(id))),
            _ => Err(Error::InvalidIriMapping),
        }
    } else if str_eq(term, "@type") {
        proof {
            reveal_strlit("@type");
        }
        Ok(Term::Keyword(Keyword::Type))
    } else {
        match ctx.vocabulary() {
            Some(Term::Ref(Reference::Id(v))) => {
                let text = concat(v.as_str(), term);
                if check_iri(text.as_str()) {
                    Ok(Term::Ref(Reference::Id(text)))
                } else {
                    Err(Error::InvalidIriMapping)
                }
            },
            _ => Err(Error::InvalidIriMapping),
        }
    }
}

} // verus!

//! IRI compaction against an active context: the choice of the term, the
//! vocabulary-relative suffix or the compact IRI that stands for an IRI or
//! a keyword in a compacted document.
use vstd::prelude::*;
use crate::container::Container;
use crate::context::{Context, ContextV, TermDefinition, TermDefinitionV, Type, TypeV, lemma_definition_list};
use crate::id::{Term, TermV, Reference, ReferenceV, reference_text};
use crate::iri::{term_text, iri_valid, check_iri, iri_ref_valid, check_iri_ref, relative_iri_of, relative_to};
use crate::syntax::ProcessingMode;
use crate::text::{spec_find, find_char, lemma_find, starts_with, to_string, concat, push_char, str_eq};
use crate::json::{Json, JsonV, entries_view};
use crate::value::{Literal, Value};
use crate::lang_string::LangString;
use crate::syntax::{Keyword, Direction, ContainerKind};
use crate::container::container_kinds;
use crate::nullable::Nullable;
use crate::loader::{ContextStore, CannotLoad, error_view};
use crate::error::Error;
use crate::process::{process_spec, process_full, depth_bound, proc_view, opt_ref_str};
use crate::context::opt_str_view;
use crate::entries::{unique_keys, add_value, add_value_spec, array_entry, key_at, lemma_add_as_array_gives_array};
use crate::json::{json_seq_view, lemma_json_seq_view};

verus! {

/// `a` comes before `b` in code point order, at their first difference.
pub open spec fn lex_less(a: Seq<char>, b: Seq<char>) -> bool {
    exists|i: int| 0 <= i < a.len() && i < b.len() && a[i] < b[i]
        && (forall|j: int| 0 <= j < i ==> a[j] == b[j])
}

/// The order in which terms are preferred: shorter first, then in code
/// point order.
pub open spec fn term_less(a: Seq<char>, b: Seq<char>) -> bool {
    a.len() < b.len() || (a.len() == b.len() && lex_less(a, b))
}

proof fn lemma_lex_asym(a: Seq<char>, b: Seq<char>)
    ensures
        !(lex_less(a, b) && lex_less(b, a)),
        !lex_less(a, a),
{
    if lex_less(a, b) && lex_less(b, a) {
        let i = choose|i: int| 0 <= i < a.len() && i < b.len() && a[i] < b[i] && (forall|j: int| 0 <= j < i ==> a[j] == b[j]);
        let k = choose|k: int| 0 <= k < b.len() && k < a.len() && b[k] < a[k] && (forall|j: int| 0 <= j < k ==> b[j] == a[j]);
        if i < k {
            assert(b[i] == a[i]);
        } else if k < i {
            assert(a[k] == b[k]);
        }
    }
}

proof fn lemma_lex_total(a: Seq<char>, b: Seq<char>)
    requires
        a.len() == b.len(),
        a != b,
    ensures
        lex_less(a, b) || lex_less(b, a),
    decreases a.len(),
{
    if a.len() == 0 {
        assert(a =~= b);
    } else if a[0] != b[0] {
        if a[0] < b[0] {
            assert(lex_less(a, b));
        } else {
            assert(lex_less(b, a));
        }
    } else {
        let ta = a.drop_first();
        let tb = b.drop_first();
        if ta =~= tb {
            assert forall|j: int| 0 <= j < a.len() implies a[j] == b[j] by {
                if j > 0 {
                    assert(a[j] == ta[j - 1]);
                    assert(b[j] == tb[j - 1]);
                }
            }
            assert(a =~= b);
        }
        lemma_lex_total(ta, tb);
        if lex_less(ta, tb) {
            let i = choose|i: int| 0 <= i < ta.len() && i < tb.len() && ta[i] < tb[i] && (forall|j: int| 0 <= j < i ==> ta[j] == tb[j]);
            assert(a[i + 1] == ta[i] && b[i + 1] == tb[i]);
            assert forall|j: int| 0 <= j < i + 1 implies a[j] == b[j] by {
                if j > 0 {
                    assert(a[j] == ta[j - 1] && b[j] == tb[j - 1]);
                }
            }
            assert(lex_less(a, b));
        } else {
            let i = choose|i: int| 0 <= i < tb.len() && i < ta.len() && tb[i] < ta[i] && (forall|j: int| 0 <= j < i ==> tb[j] == ta[j]);
            assert(a[i + 1] == ta[i] && b[i + 1] == tb[i]);
            assert forall|j: int| 0 <= j < i + 1 implies b[j] == a[j] by {
                if j > 0 {
                    assert(a[j] == ta[j - 1] && b[j] == tb[j - 1]);
                }
            }
            assert(lex_less(b, a));
        }
    }
}

/// Two strings that come before each other in neither direction are equal.
proof fn lemma_term_less_unique(a: Seq<char>, b: Seq<char>)
    requires
        !term_less(a, b),
        !term_less(b, a),
    ensures
        a == b,
{
    if a != b {
        lemma_lex_total(a, b);
    }
}

/// Checks [`term_less`].
fn str_less(a: &str, b: &str) -> (r: bool)
    ensures
        r == term_less(a@, b@),
{
    let la = a.unicode_len();
    let lb = b.unicode_len();
    if la < lb {
        return true;
    }
    if la > lb {
        return false;
    }
    let mut i: usize = 0;
    while i < la
        invariant
            la == a@.len(),
            lb == b@.len(),
            la == lb,
            i <= la,
            forall|j: int| 0 <= j < i ==> a@[j] == b@[j],
        decreases la - i,
    {
        let x = a.get_char(i);
        let y = b.get_char(i);
        if x != y {
            proof {
                lemma_lex_asym(a@, b@);
                if x < y {
                    assert(lex_less(a@, b@));
                } else {
                    if lex_less(a@, b@) {
                        let k = choose|k: int| 0 <= k < a@.len() && k < b@.len() && a@[k] < b@[k] && (forall|j: int| 0 <= j < k ==> a@[j] == b@[j]);
                        if k < i {
                            assert(a@[k] == b@[k]);
                        } else if k > i {
                            assert(a@[i as int] == b@[i as int]);
                        }
                    }
                }
            }
            return x < y;
        }
        i = i + 1;
    }
    proof {
        assert(a@ =~= b@);
        lemma_lex_asym(a@, a@);
    }
    false
}

/// The preferred values looked up, in this order, when a term is selected
/// for an IRI with no value: a type mapping `@id`, no mapping, `@none`.
#[derive(Clone, Copy, PartialEq, Eq, Structural, Debug)]
pub enum Preference {
    Id,
    Plain,
    Any,
}

/// The term definition `d` is filed, in the inverse context, under the IRI
/// `var`, the container `c` and the preferred value `p` of the type map.
pub open spec fn in_slot(d: TermDefinitionV, var: TermV, c: Container, p: Preference) -> bool {
    &&& d.value == Some(var)
    &&& d.container == c
    &&& !d.reverse_property
    &&& match p {
        Preference::Id => d.typ == Some(TypeV::Id),
        Preference::Plain => d.typ is None && d.language is None && d.direction is None,
        Preference::Any => d.typ == Some(TypeV::NoneType),
    }
}

/// The term `t` of `ctx` is filed under `var`, `c` and `p`.
pub open spec fn slot_has(ctx: ContextV, t: Seq<char>, var: TermV, c: Container, p: Preference) -> bool {
    ctx.definitions.contains_key(t) && in_slot(ctx.definitions[t], var, c, p)
}

/// The first term (shortest, then in code point order) filed under `var`,
/// `c` and `p`, if any.
pub open spec fn slot_least(ctx: ContextV, var: TermV, c: Container, p: Preference) -> Option<Seq<char>> {
    if exists|t: Seq<char>| slot_has(ctx, t, var, c, p) {
        Some(choose|t: Seq<char>| slot_has(ctx, t, var, c, p)
            && forall|u: Seq<char>| #[trigger] slot_has(ctx, u, var, c, p) ==> !term_less(u, t))
    } else {
        None
    }
}

/// The containers looked up, in this order, when a term is selected for an
/// IRI with no value.
pub open spec fn selection_containers(mode: ProcessingMode) -> Seq<Container> {
    let base = seq![Container::Id, Container::IdSet, Container::Type, Container::SetType, Container::SetOnly, Container::Empty];
    if mode == ProcessingMode::JsonLd1_0 {
        base
    } else {
        base + seq![Container::Index, Container::IndexSet]
    }
}

/// The term selected for `var` among the containers `cs` from the `i`-th on.
pub open spec fn select_from(ctx: ContextV, var: TermV, cs: Seq<Container>, i: int) -> Option<Seq<char>>
    decreases cs.len() - i,
{
    if i < 0 || i >= cs.len() {
        None
    } else if slot_least(ctx, var, cs[i], Preference::Id) is Some {
        slot_least(ctx, var, cs[i], Preference::Id)
    } else if slot_least(ctx, var, cs[i], Preference::Plain) is Some {
        slot_least(ctx, var, cs[i], Preference::Plain)
    } else if slot_least(ctx, var, cs[i], Preference::Any) is Some {
        slot_least(ctx, var, cs[i], Preference::Any)
    } else {
        select_from(ctx, var, cs, i + 1)
    }
}

/// The part of `x` after the vocabulary mapping of `ctx`, if `x` starts
/// with it, is longer, and the rest is not a term of `ctx`.
pub open spec fn vocab_suffix(ctx: ContextV, x: Seq<char>) -> Option<Seq<char>> {
    match ctx.vocabulary {
        Some(TermV::Ref(r)) => {
            let v = reference_text(r);
            if v.len() < x.len() && x.subrange(0, v.len() as int) == v
                && !ctx.definitions.contains_key(x.subrange(v.len() as int, x.len() as int)) {
                Some(x.subrange(v.len() as int, x.len() as int))
            } else {
                None
            }
        },
        _ => None,
    }
}

/// The compact IRI that the term `t` of `ctx` gives for `var`: `t`, a colon
/// and the rest of `var` after the IRI mapping of `t`, when `t` is a prefix
/// whose mapping starts `var` (without being it), and the result is no term
/// or a term mapped to `var`.
pub open spec fn prefix_candidate(ctx: ContextV, var: TermV, t: Seq<char>) -> Option<Seq<char>> {
    if ctx.definitions.contains_key(t) {
        let d = ctx.definitions[t];
        match d.value {
            Some(tv) => {
                let iri = term_text(tv);
                let x = term_text(var);
                if tv != var && d.prefix && iri.len() <= x.len() && x.subrange(0, iri.len() as int) == iri {
                    let cand = t + seq![':'] + x.subrange(iri.len() as int, x.len() as int);
                    if !ctx.definitions.contains_key(cand) || ctx.definitions[cand].value == Some(var) {
                        Some(cand)
                    } else {
                        None
                    }
                } else {
                    None
                }
            },
            None => None,
        }
    } else {
        None
    }
}

/// `s` is the compact IRI that some term of `ctx` gives for `var`.
pub open spec fn is_candidate(ctx: ContextV, var: TermV, s: Seq<char>) -> bool {
    exists|t: Seq<char>| #[trigger] prefix_candidate(ctx, var, t) == Some(s)
}

/// The first compact IRI (shortest, then in code point order) that a term
/// of `ctx` gives for `var`, if any.
pub open spec fn compact_candidate(ctx: ContextV, var: TermV) -> Option<Seq<char>> {
    if exists|s: Seq<char>| is_candidate(ctx, var, s) {
        Some(choose|s: Seq<char>| is_candidate(ctx, var, s)
            && forall|u: Seq<char>| #[trigger] is_candidate(ctx, var, u) ==> !term_less(u, s))
    } else {
        None
    }
}

/// `x` is an IRI whose scheme is a prefix term of `ctx` and that has no
/// authority, so that it would read as a compact IRI.
pub open spec fn confused_with_prefix(ctx: ContextV, x: Seq<char>) -> bool {
    &&& iri_valid(x)
    &&& spec_find(x, ':') matches Some(i)
    &&& ctx.definitions.contains_key(x.subrange(0, i))
    &&& ctx.definitions[x.subrange(0, i)].prefix
    &&& !(x.len() >= i + 3 && x[i + 1] == '/' && x[i + 2] == '/')
}

/// IRI compaction of `var` relative to the vocabulary, for no particular
/// value: `null` stays `null`; otherwise the selected term, else the suffix
/// after the vocabulary mapping, else the first compact IRI, else `var`
/// itself, unless it would be confused with a compact IRI (`Err`).
pub open spec fn compact_iri_spec(ctx: ContextV, var: TermV, mode: ProcessingMode) -> Result<Option<Seq<char>>, ()> {
    if var is Null {
        Ok(None)
    } else {
        match select_from(ctx, var, selection_containers(mode), 0) {
            Some(t) => Ok(Some(t)),
            None => match vocab_suffix(ctx, term_text(var)) {
                Some(s) => Ok(Some(s)),
                None => match compact_candidate(ctx, var) {
                    Some(c) => Ok(Some(c)),
                    None => if confused_with_prefix(ctx, term_text(var)) {
                        Err(())
                    } else {
                        Ok(Some(term_text(var)))
                    },
                },
            },
        }
    }
}

/// An error of compaction.
#[derive(Debug)]
pub enum CompactError {
    /// An IRI would read as a compact IRI.
    IriConfusedWithPrefix,
    /// A nest value is neither `@nest` nor a term that stands for it.
    InvalidNestValue,
    /// A scoped context could not be processed.
    ContextProcessing(crate::error::Error<crate::loader::CannotLoad>),
}

/// Checks [`in_slot`].
fn slot_holds(d: &TermDefinition, var: &Term, c: Container, p: Preference) -> (r: bool)
    ensures
        r == in_slot(d@, var@, c, p),
{
    let same = match &d.value {
        Some(v) => v.same_as(var),
        None => false,
    };
    if !same || d.container != c || d.reverse_property {
        return false;
    }
    match p {
        Preference::Id => match &d.typ {
            Some(Type::Id) => true,
            _ => false,
        },
        Preference::Plain => d.typ.is_none() && d.language.is_none() && d.direction.is_none(),
        Preference::Any => match &d.typ {
            Some(Type::NoneType) => true,
            _ => false,
        },
    }
}

/// Finds [`slot_least`].
fn least_in_slot(ctx: &Context, var: &Term, c: Container, p: Preference) -> (r: Option<String>)
    requires
        ctx.wf(),
    ensures
        match r {
            Some(t) => slot_least(ctx@, var@, c, p) == Some(t@),
            None => slot_least(ctx@, var@, c, p) is None,
        },
{
    let ghost list = ctx.definition_list();
    let n = ctx.definition_count();
    let mut best: Option<usize> = None;
    let mut i: usize = 0;
    while i < n
        invariant
            n == list.len(),
            list == ctx.definition_list(),
            i <= n,
            match best {
                Some(b) => b < i && in_slot(list[b as int].1, var@, c, p)
                    && forall|j: int| 0 <= j < i && #[trigger] in_slot(list[j].1, var@, c, p) ==> !term_less(list[j].0, list[b as int].0),
                None => forall|j: int| 0 <= j < i ==> !#[trigger] in_slot(list[j].1, var@, c, p),
            },
        decreases n - i,
    {
        let (t, d) = ctx.definition_at(i);
        if slot_holds(d, var, c, p) {
            match best {
                None => {
                    best = Some(i);
                    proof {
                        lemma_lex_asym(list[i as int].0, list[i as int].0);
                    }
                },
                Some(b) => {
                    let (tb, _) = ctx.definition_at(b);
                    if str_less(t.as_str(), tb.as_str()) {
                        best = Some(i);
                        proof {
                            assert forall|j: int| 0 <= j < i + 1 && #[trigger] in_slot(list[j].1, var@, c, p) implies !term_less(list[j].0, list[i as int].0) by {
                                if j < i {
                                    if term_less(list[j].0, list[i as int].0) {
                                        // list[j] < list[i] < list[b], contradicting the minimality of b
                                        lemma_lex_asym(list[j].0, list[b as int].0);
                                        lemma_term_less_trans(list[j].0, list[i as int].0, list[b as int].0);
                                    }
                                } else {
                                    lemma_lex_asym(list[i as int].0, list[i as int].0);
                                }
                            }
                        }
                    }
                },
            }
        }
        i = i + 1;
    }
    match best {
        None => {
            proof {
                lemma_slot_empty(*ctx, var@, c, p);
            }
            None
        },
        Some(b) => {
            let (tb, _) = ctx.definition_at(b);
            proof {
                lemma_slot_least_at(*ctx, var@, c, p, b as int);
            }
            Some(tb.clone())
        },
    }
}

proof fn lemma_slot_empty(ctx: Context, var: TermV, c: Container, p: Preference)
    requires
        ctx.wf(),
        forall|j: int| 0 <= j < ctx.definition_list().len() ==> !#[trigger] in_slot(ctx.definition_list()[j].1, var, c, p),
    ensures
        slot_least(ctx@, var, c, p) is None,
{
    lemma_definition_list(ctx);
    let list = ctx.definition_list();
    assert forall|t: Seq<char>| !slot_has(ctx@, t, var, c, p) by {
        if slot_has(ctx@, t, var, c, p) {
            let j = choose|j: int| 0 <= j < list.len() && #[trigger] list[j].0 == t;
            assert(in_slot(list[j].1, var, c, p));
        }
    }
}

proof fn lemma_slot_least_at(ctx: Context, var: TermV, c: Container, p: Preference, b: int)
    requires
        ctx.wf(),
        0 <= b < ctx.definition_list().len(),
        in_slot(ctx.definition_list()[b].1, var, c, p),
        forall|j: int| 0 <= j < ctx.definition_list().len() && #[trigger] in_slot(ctx.definition_list()[j].1, var, c, p)
            ==> !term_less(ctx.definition_list()[j].0, ctx.definition_list()[b].0),
    ensures
        slot_least(ctx@, var, c, p) == Some(ctx.definition_list()[b].0),
{
    lemma_definition_list(ctx);
    let list = ctx.definition_list();
    let w = list[b].0;
    assert(slot_has(ctx@, w, var, c, p));
    assert forall|u: Seq<char>| #[trigger] slot_has(ctx@, u, var, c, p) implies !term_less(u, w) by {
        let j = choose|j: int| 0 <= j < list.len() && #[trigger] list[j].0 == u;
        assert(in_slot(list[j].1, var, c, p));
    }
    let m = choose|t: Seq<char>| slot_has(ctx@, t, var, c, p)
        && forall|u: Seq<char>| #[trigger] slot_has(ctx@, u, var, c, p) ==> !term_less(u, t);
    assert(!term_less(m, w));
    assert(!term_less(w, m));
    lemma_term_less_unique(m, w);
}

proof fn lemma_term_less_trans(a: Seq<char>, b: Seq<char>, c: Seq<char>)
    requires
        term_less(a, b),
        term_less(b, c),
    ensures
        term_less(a, c),
{
    if a.len() == b.len() && b.len() == c.len() {
        let i = choose|i: int| 0 <= i < a.len() && i < b.len() && a[i] < b[i] && (forall|j: int| 0 <= j < i ==> a[j] == b[j]);
        let k = choose|k: int| 0 <= k < b.len() && k < c.len() && b[k] < c[k] && (forall|j: int| 0 <= j < k ==> b[j] == c[j]);
        if i < k {
            assert(b[i] == c[i]);
            assert forall|j: int| 0 <= j < i implies a[j] == c[j] by {
                assert(b[j] == c[j]);
            }
            assert(lex_less(a, c));
        } else if k < i {
            assert(a[k] == b[k]);
            assert forall|j: int| 0 <= j < k implies a[j] == c[j] by {
                assert(a[j] == b[j]);
            }
            assert(lex_less(a, c));
        } else {
            assert forall|j: int| 0 <= j < i implies a[j] == c[j] by {
                assert(a[j] == b[j]);
            }
            assert(lex_less(a, c));
        }
    }
}

/// The characters of `s` from the `k`-th on.
fn suffix_from(s: &str, k: usize) -> (r: String)
    requires
        k <= s@.len(),
    ensures
        r@ == s@.subrange(k as int, s@.len() as int),
{
    let n = s.unicode_len();
    let mut out = String::new();
    let mut i = k;
    proof {
        assert(out@ =~= s@.subrange(k as int, k as int));
    }
    while i < n
        invariant
            n == s@.len(),
            k <= i <= n,
            out@ == s@.subrange(k as int, i as int),
        decreases n - i,
    {
        push_char(&mut out, s.get_char(i));
        proof {
            assert(out@ =~= s@.subrange(k as int, i + 1));
        }
        i = i + 1;
    }
    out
}

/// The characters of `s` before the `k`-th.
fn prefix_to(s: &str, k: usize) -> (r: String)
    requires
        k <= s@.len(),
    ensures
        r@ == s@.subrange(0, k as int),
{
    let mut out = String::new();
    let mut i: usize = 0;
    proof {
        assert(out@ =~= s@.subrange(0, 0));
    }
    while i < k
        invariant
            k <= s@.len(),
            i <= k,
            out@ == s@.subrange(0, i as int),
        decreases k - i,
    {
        push_char(&mut out, s.get_char(i));
        proof {
            assert(out@ =~= s@.subrange(0, i + 1));
        }
        i = i + 1;
    }
    out
}

/// Finds [`select_from`].
fn select_term(ctx: &Context, var: &Term, cs: &Vec<Container>, i: usize) -> (r: Option<String>)
    requires
        ctx.wf(),
        i <= cs@.len(),
    ensures
        match r {
            Some(t) => select_from(ctx@, var@, cs@, i as int) == Some(t@),
            None => select_from(ctx@, var@, cs@, i as int) is None,
        },
    decreases cs@.len() - i,
{
    if i >= cs.len() {
        return None;
    }
    let c = cs[i];
    match least_in_slot(ctx, var, c, Preference::Id) {
        Some(t) => {
            return Some(t);
        },
        None => {},
    }
    match least_in_slot(ctx, var, c, Preference::Plain) {
        Some(t) => {
            return Some(t);
        },
        None => {},
    }
    match least_in_slot(ctx, var, c, Preference::Any) {
        Some(t) => {
            return Some(t);
        },
        None => {},
    }
    select_term(ctx, var, cs, i + 1)
}

/// Finds [`vocab_suffix`].
fn vocab_suffix_exec(ctx: &Context, x: &str) -> (r: Option<String>)
    requires
        ctx.wf(),
    ensures
        match r {
            Some(s) => vocab_suffix(ctx@, x@) == Some(s@),
            None => vocab_suffix(ctx@, x@) is None,
        },
{
    match ctx.vocabulary() {
        Some(Term::Ref(r)) => {
            let v = r.as_str();
            let lv = v.unicode_len();
            if lv < x.unicode_len() && starts_with(x, v) {
                let suffix = suffix_from(x, lv);
                if !ctx.contains_term(suffix.as_str()) {
                    return Some(suffix);
                }
            }
            None
        },
        _ => None,
    }
}

/// Finds [`prefix_candidate`] for the `i`-th term of `ctx`.
fn candidate_at(ctx: &Context, var: &Term, i: usize) -> (r: Option<String>)
    requires
        ctx.wf(),
        i < ctx.definition_list().len(),
    ensures
        match r {
            Some(s) => prefix_candidate(ctx@, var@, ctx.definition_list()[i as int].0) == Some(s@),
            None => prefix_candidate(ctx@, var@, ctx.definition_list()[i as int].0) is None,
        },
{
    proof {
        lemma_definition_list(*ctx);
    }
    let (t, d) = ctx.definition_at(i);
    assert(ctx@.definitions.contains_key(ctx.definition_list()[i as int].0));
    assert(ctx@.definitions.contains_key(t@) && ctx@.definitions[t@] == d@);
    let tv = match &d.value {
        Some(tv) => tv,
        None => {
            return None;
        },
    };
    if tv.same_as(var) || !d.prefix {
        return None;
    }
    let iri = tv.as_str();
    let x = var.as_str();
    if !starts_with(x, iri) {
        return None;
    }
    let rest = suffix_from(x, iri.unicode_len());
    let head = concat(t.as_str(), ":");
    let cand = concat(head.as_str(), rest.as_str());
    proof {
        reveal_strlit(":");
        assert(cand@ =~= t@ + seq![':'] + x@.subrange(iri@.len() as int, x@.len() as int));
    }
    match ctx.get(cand.as_str()) {
        None => Some(cand),
        Some(cd) => {
            let ok = match &cd.value {
                Some(v) => v.same_as(var),
                None => false,
            };
            if ok {
                Some(cand)
            } else {
                None
            }
        },
    }
}

/// Finds [`compact_candidate`].
fn compact_candidate_exec(ctx: &Context, var: &Term) -> (r: Option<String>)
    requires
        ctx.wf(),
    ensures
        match r {
            Some(s) => compact_candidate(ctx@, var@) == Some(s@),
            None => compact_candidate(ctx@, var@) is None,
        },
{
    let ghost list = ctx.definition_list();
    let n = ctx.definition_count();
    let mut best: Option<String> = None;
    let mut i: usize = 0;
    while i < n
        invariant
            ctx.wf(),
            n == list.len(),
            list == ctx.definition_list(),
            i <= n,
            match best {
                Some(b) => is_candidate(ctx@, var@, b@)
                    && forall|j: int| 0 <= j < i && #[trigger] prefix_candidate(ctx@, var@, list[j].0) is Some
                        ==> !term_less(prefix_candidate(ctx@, var@, list[j].0)->0, b@),
                None => forall|j: int| 0 <= j < i ==> #[trigger] prefix_candidate(ctx@, var@, list[j].0) is None,
            },
        decreases n - i,
    {
        match candidate_at(ctx, var, i) {
            None => {},
            Some(cand) => {
                let replace = match &best {
                    None => true,
                    Some(b) => str_less(cand.as_str(), b.as_str()),
                };
                proof {
                    lemma_lex_asym(cand@, cand@);
                    assert(prefix_candidate(ctx@, var@, list[i as int].0) == Some(cand@));
                }
                if replace {
                    proof {
                        if let Some(b) = best {
                            assert forall|j: int| 0 <= j < i + 1 && #[trigger] prefix_candidate(ctx@, var@, list[j].0) is Some
                                implies !term_less(prefix_candidate(ctx@, var@, list[j].0)->0, cand@) by {
                                if j < i {
                                    let pj = prefix_candidate(ctx@, var@, list[j].0)->0;
                                    if term_less(pj, cand@) {
                                        lemma_term_less_trans(pj, cand@, b@);
                                    }
                                }
                            }
                        }
                    }
                    best = Some(cand);
                }
            },
        }
        i = i + 1;
    }
    proof {
        lemma_candidate_result(*ctx, var@, best);
    }
    best
}

proof fn lemma_candidate_result(ctx: Context, var: TermV, best: Option<String>)
    requires
        ctx.wf(),
        match best {
            Some(b) => is_candidate(ctx@, var, b@)
                && forall|j: int| 0 <= j < ctx.definition_list().len() && #[trigger] prefix_candidate(ctx@, var, ctx.definition_list()[j].0) is Some
                    ==> !term_less(prefix_candidate(ctx@, var, ctx.definition_list()[j].0)->0, b@),
            None => forall|j: int| 0 <= j < ctx.definition_list().len() ==> #[trigger] prefix_candidate(ctx@, var, ctx.definition_list()[j].0) is None,
        },
    ensures
        match best {
            Some(b) => compact_candidate(ctx@, var) == Some(b@),
            None => compact_candidate(ctx@, var) is None,
        },
{
    lemma_definition_list(ctx);
    let list = ctx.definition_list();
    match best {
        None => {
            assert forall|s: Seq<char>| !is_candidate(ctx@, var, s) by {
                if is_candidate(ctx@, var, s) {
                    let t = choose|t: Seq<char>| #[trigger] prefix_candidate(ctx@, var, t) == Some(s);
                    assert(ctx@.definitions.contains_key(t));
                    let j = choose|j: int| 0 <= j < list.len() && #[trigger] list[j].0 == t;
                    assert(prefix_candidate(ctx@, var, list[j].0) is None);
                }
            }
        },
        Some(b) => {
            let w = b@;
            assert forall|u: Seq<char>| #[trigger] is_candidate(ctx@, var, u) implies !term_less(u, w) by {
                let t = choose|t: Seq<char>| #[trigger] prefix_candidate(ctx@, var, t) == Some(u);
                assert(ctx@.definitions.contains_key(t));
                let j = choose|j: int| 0 <= j < list.len() && #[trigger] list[j].0 == t;
                assert(prefix_candidate(ctx@, var, list[j].0) is Some);
            }
            let m = choose|s: Seq<char>| is_candidate(ctx@, var, s)
                && forall|u: Seq<char>| #[trigger] is_candidate(ctx@, var, u) ==> !term_less(u, s);
            assert(!term_less(m, w));
            assert(!term_less(w, m));
            lemma_term_less_unique(m, w);
        },
    }
}

/// Checks [`confused_with_prefix`].
fn confused_exec(ctx: &Context, x: &str) -> (r: bool)
    requires
        ctx.wf(),
    ensures
        r == confused_with_prefix(ctx@, x@),
{
    if !check_iri(x) {
        return false;
    }
    proof {
        lemma_find(x@, ':');
    }
    match find_char(x, ':') {
        None => false,
        Some(i) => {
            let scheme = prefix_to(x, i);
            match ctx.get(scheme.as_str()) {
                None => false,
                Some(d) => {
                    if !d.prefix {
                        return false;
                    }
                    let n = x.unicode_len();
                    let authority = n - i >= 3 && x.get_char(i + 1) == '/' && x.get_char(i + 2) == '/';
                    !authority
                },
            }
        },
    }
}

/// The containers of [`selection_containers`].
fn selection_containers_exec(mode: ProcessingMode) -> (r: Vec<Container>)
    ensures
        r@ == selection_containers(mode),
{
    let mut v: Vec<Container> = vec![Container::Id, Container::IdSet, Container::Type, Container::SetType, Container::SetOnly, Container::Empty];
    if mode != ProcessingMode::JsonLd1_0 {
        v.push(Container::Index);
        v.push(Container::IndexSet);
    }
    proof {
        assert(v@ =~= selection_containers(mode));
    }
    v
}

/// IRI compaction of `var` relative to the vocabulary, for no particular
/// value (see [`compact_iri_spec`]).
fn compact_vocab_iri(ctx: &Context, var: &Term, mode: ProcessingMode) -> (r: Result<Option<String>, CompactError>)
    requires
        ctx.wf(),
    ensures
        match r {
            Ok(Some(s)) => compact_iri_spec(ctx@, var@, mode) == Ok::<Option<Seq<char>>, ()>(Some(s@)),
            Ok(None) => compact_iri_spec(ctx@, var@, mode) == Ok::<Option<Seq<char>>, ()>(None),
            Err(e) => compact_iri_spec(ctx@, var@, mode) == Err::<Option<Seq<char>>, ()>(()) && e is IriConfusedWithPrefix,
        },
{
    match var {
        Term::Null => {
            return Ok(None);
        },
        _ => {},
    }
    let cs = selection_containers_exec(mode);
    match select_term(ctx, var, &cs, 0) {
        Some(t) => {
            return Ok(Some(t));
        },
        None => {},
    }
    let x = var.as_str();
    match vocab_suffix_exec(ctx, x) {
        Some(s) => {
            return Ok(Some(s));
        },
        None => {},
    }
    match compact_candidate_exec(ctx, var) {
        Some(c) => {
            return Ok(Some(c));
        },
        None => {},
    }
    if confused_exec(ctx, x) {
        Err(CompactError::IriConfusedWithPrefix)
    } else {
        Ok(Some(to_string(x)))
    }
}

/// Options of compaction.
#[derive(Clone, Copy, Debug, PartialEq, Eq, Structural)]
pub struct Options {
    /// The processing mode.
    pub processing_mode: ProcessingMode,
    /// Whether IRIs are made relative to the base IRI.
    pub compact_to_relative: bool,
    /// Whether arrays of one item are replaced by the item.
    pub compact_arrays: bool,
    /// Whether properties are taken in lexical order.
    pub ordered: bool,
}

impl Options {
    /// The same options, with properties in no particular order.
    pub fn unordered(self) -> (r: Options)
        ensures
            r == (Options { ordered: false, ..self }),
    {
        Options { ordered: false, ..self }
    }
}

/// The options of context processing that compaction uses: its processing
/// mode, with protected terms overridden.
pub open spec fn scoped_options(o: Options) -> crate::processing::Options {
    crate::processing::Options { processing_mode: o.processing_mode, override_protected: true, propagate: true }
}

/// A compaction error as a value.
pub enum CompactErrorV {
    IriConfusedWithPrefix,
    InvalidNestValue,
    ContextProcessing(Error<Seq<char>>),
}

/// The view of a compaction error.
pub open spec fn compact_error_view(e: CompactError) -> CompactErrorV {
    match e {
        CompactError::IriConfusedWithPrefix => CompactErrorV::IriConfusedWithPrefix,
        CompactError::InvalidNestValue => CompactErrorV::InvalidNestValue,
        CompactError::ContextProcessing(x) => CompactErrorV::ContextProcessing(error_view(x)),
    }
}

/// The view of a compaction result.
pub open spec fn compact_result(r: Result<Json, CompactError>) -> Result<JsonV, CompactErrorV> {
    match r {
        Ok(j) => Ok(j@),
        Err(e) => Err(compact_error_view(e)),
    }
}

/// The key that stands for a keyword.
pub open spec fn key_spec(ctx: ContextV, k: Keyword, mode: ProcessingMode) -> Result<Seq<char>, CompactErrorV> {
    match compact_iri_spec(ctx, TermV::Keyword(k), mode) {
        Ok(Some(s)) => Ok(s),
        Ok(None) => Ok(Seq::empty()),
        Err(_) => Err(CompactErrorV::IriConfusedWithPrefix),
    }
}

/// The compacted form of an IRI as a JSON value (`null` for none).
pub open spec fn iri_json_spec(ctx: ContextV, t: TermV, mode: ProcessingMode) -> Result<JsonV, CompactErrorV> {
    match compact_iri_spec(ctx, t, mode) {
        Ok(Some(s)) => Ok(JsonV::String(s)),
        Ok(None) => Ok(JsonV::Null),
        Err(_) => Err(CompactErrorV::IriConfusedWithPrefix),
    }
}

/// The entries `e`, followed by the index when it is kept.
pub open spec fn with_index_spec(ctx: ContextV, e: Seq<(Seq<char>, JsonV)>, index: Option<Seq<char>>, remove_index: bool, mode: ProcessingMode) -> Result<JsonV, CompactErrorV> {
    if !remove_index && index is Some {
        match key_spec(ctx, Keyword::Index, mode) {
            Ok(k) => Ok(JsonV::Object(e.push((k, JsonV::String(index->0))))),
            Err(x) => Err(x),
        }
    } else {
        Ok(JsonV::Object(e))
    }
}

/// The text of a direction.
pub open spec fn direction_text(d: Direction) -> Seq<char> {
    match d {
        Direction::Ltr => "ltr"@,
        Direction::Rtl => "rtl"@,
    }
}

/// A literal as a JSON value.
pub open spec fn literal_json(l: Literal) -> JsonV {
    match l {
        Literal::Null => JsonV::Null,
        Literal::Boolean(b) => JsonV::Boolean(b),
        Literal::Number(n) => JsonV::Number(n@),
        Literal::String(s) => JsonV::String(s@),
    }
}

/// The definition of the active property, if any.
pub open spec fn property_definition(ctx: ContextV, ap: Option<Seq<char>>) -> Option<TermDefinitionV> {
    match ap {
        Some(p) => if ctx.definitions.contains_key(p) { Some(ctx.definitions[p]) } else { None },
        None => None,
    }
}

/// The language that applies: the language mapping of the active property,
/// else the default language.
pub open spec fn value_language(ctx: ContextV, def: Option<TermDefinitionV>) -> Option<Seq<char>> {
    match def {
        Some(d) => match d.language {
            Some(Nullable::Null) => None,
            Some(Nullable::Value(l)) => Some(l),
            None => ctx.default_language,
        },
        None => ctx.default_language,
    }
}

/// The direction that applies: the direction mapping of the active
/// property, else the default base direction.
pub open spec fn value_direction(ctx: ContextV, def: Option<TermDefinitionV>) -> Option<Direction> {
    match def {
        Some(d) => match d.direction {
            Some(Nullable::Null) => None,
            Some(Nullable::Value(x)) => Some(x),
            None => ctx.default_base_direction,
        },
        None => ctx.default_base_direction,
    }
}

/// Compaction of a literal with its datatype `ty`.
pub open spec fn compact_literal_spec(ctx: ContextV, lit: Literal, ty: Option<String>, language: Option<Seq<char>>, direction: Option<Direction>, tm: Option<TypeV>, index: Option<Seq<char>>, remove_index: bool, mode: ProcessingMode) -> Result<JsonV, CompactErrorV> {
    let same_type = match (ty, tm) {
        (None, None) => true,
        (Some(t), Some(TypeV::Ref(u))) => t@ == u,
        _ => false,
    };
    if same_type && remove_index && !(lit is String) {
        Ok(literal_json(lit))
    } else if same_type && remove_index && (ty is Some || (language is None && direction is None)) {
        Ok(literal_json(lit))
    } else {
        match key_spec(ctx, Keyword::Value, mode) {
            Err(x) => Err(x),
            Ok(kv) => if same_type && remove_index {
                with_index_spec(ctx, seq![(kv, literal_json(lit))], index, remove_index, mode)
            } else {
                match ty {
                    None => with_index_spec(ctx, seq![(kv, literal_json(lit))], index, remove_index, mode),
                    Some(t) => match key_spec(ctx, Keyword::Type, mode) {
                        Err(x) => Err(x),
                        Ok(kt) => match iri_json_spec(ctx, TermV::Ref(ReferenceV::Id(t@)), mode) {
                            Err(x) => Err(x),
                            Ok(ct) => with_index_spec(ctx, seq![(kv, literal_json(lit)), (kt, ct)], index, remove_index, mode),
                        },
                    },
                }
            },
        }
    }
}

/// Compaction of a language-tagged string.
pub open spec fn compact_lang_spec(ctx: ContextV, ls: LangString, language: Option<Seq<char>>, direction: Option<Direction>, index: Option<Seq<char>>, remove_index: bool, mode: ProcessingMode) -> Result<JsonV, CompactErrorV> {
    if remove_index && (ls@.language is None || language == ls@.language)
        && (ls@.direction is None || direction == ls@.direction) {
        Ok(JsonV::String(ls@.data))
    } else {
        match key_spec(ctx, Keyword::Value, mode) {
            Err(x) => Err(x),
            Ok(kv) => {
                let e1 = seq![(kv, JsonV::String(ls@.data))];
                let r2 = match ls@.language {
                    Some(l) => match key_spec(ctx, Keyword::Language, mode) {
                        Err(x) => Err(x),
                        Ok(kl) => Ok(e1.push((kl, JsonV::String(l)))),
                    },
                    None => Ok(e1),
                };
                match r2 {
                    Err(x) => Err(x),
                    Ok(e2) => match ls@.direction {
                        Some(d) => match key_spec(ctx, Keyword::Direction, mode) {
                            Err(x) => Err(x),
                            Ok(kd) => with_index_spec(ctx, e2.push((kd, JsonV::String(direction_text(d)))), index, remove_index, mode),
                        },
                        None => with_index_spec(ctx, e2, index, remove_index, mode),
                    },
                }
            },
        }
    }
}

/// Compaction of a JSON literal.
pub open spec fn compact_json_spec(ctx: ContextV, j: JsonV, tm: Option<TypeV>, index: Option<Seq<char>>, remove_index: bool, mode: ProcessingMode) -> Result<JsonV, CompactErrorV> {
    if tm == Some(TypeV::Json) && remove_index {
        Ok(j)
    } else {
        match key_spec(ctx, Keyword::Value, mode) {
            Err(x) => Err(x),
            Ok(kv) => match key_spec(ctx, Keyword::Type, mode) {
                Err(x) => Err(x),
                Ok(kt) => match iri_json_spec(ctx, TermV::Keyword(Keyword::Json), mode) {
                    Err(x) => Err(x),
                    Ok(ct) => with_index_spec(ctx, seq![(kv, j), (kt, ct)], index, remove_index, mode),
                },
            },
        }
    }
}

/// Value compaction in the context `ctx` (already the scoped context of the
/// active property, if it has one): the language, direction, type mapping
/// and container of the active property decide whether the value stays a
/// plain JSON value or becomes a value object, and whether its index is
/// kept.
pub open spec fn compact_value_core(ctx: ContextV, value: Value<String>, index: Option<Seq<char>>, ap: Option<Seq<char>>, mode: ProcessingMode) -> Result<JsonV, CompactErrorV> {
    let def = property_definition(ctx, ap);
    let language = value_language(ctx, def);
    let direction = value_direction(ctx, def);
    let tm = match def { Some(d) => d.typ, None => None };
    let container = match def { Some(d) => d.container, None => Container::Empty };
    let remove_index = index is None || container_kinds(container).contains(ContainerKind::Index);
    match value {
        Value::Literal(lit, ty) => compact_literal_spec(ctx, lit, ty, language, direction, tm, index, remove_index, mode),
        Value::LangString(ls) => compact_lang_spec(ctx, ls, language, direction, index, remove_index, mode),
        Value::Json(j) => compact_json_spec(ctx, j@, tm, index, remove_index, mode),
    }
}

/// Value compaction: the scoped context of the active property, if it has
/// one, is processed first (with the remote documents of `store`), then
/// the value is compacted in it.
pub open spec fn compact_value_spec(store: Seq<(Seq<char>, JsonV)>, value: Value<String>, index: Option<Seq<char>>, ctx: ContextV, ap: Option<Seq<char>>, options: Options) -> Result<JsonV, CompactErrorV> {
    match property_definition(ctx, ap) {
        Some(d) if d.context is Some => {
            let c = d.context->0;
            match process_spec(store, ctx, c, Seq::empty(), d.base_url, scoped_options(options), depth_bound(store, c), Seq::empty()) {
                Err(e) => Err(CompactErrorV::ContextProcessing(e)),
                Ok((ctx2, _)) => compact_value_core(ctx2, value, index, ap, options.processing_mode),
            }
        },
        _ => compact_value_core(ctx, value, index, ap, options.processing_mode),
    }
}

/// The view of an optional string slice.
pub open spec fn opt_str(o: Option<&str>) -> Option<Seq<char>> {
    match o {
        Some(s) => Some(s@),
        None => None,
    }
}

/// Computes [`key_spec`].
fn key_exec(ctx: &Context, k: Keyword, mode: ProcessingMode) -> (r: Result<String, CompactError>)
    requires
        ctx.wf(),
    ensures
        match r {
            Ok(s) => key_spec(ctx@, k, mode) == Ok::<Seq<char>, CompactErrorV>(s@),
            Err(e) => key_spec(ctx@, k, mode) == Err::<Seq<char>, CompactErrorV>(compact_error_view(e)),
        },
{
    let t = Term::Keyword(k);
    match compact_vocab_iri(ctx, &t, mode) {
        Ok(Some(s)) => Ok(s),
        Ok(None) => Ok(String::new()),
        Err(e) => Err(e),
    }
}

/// Computes [`iri_json_spec`].
fn iri_json_exec(ctx: &Context, t: &Term, mode: ProcessingMode) -> (r: Result<Json, CompactError>)
    requires
        ctx.wf(),
    ensures
        compact_result(r) == iri_json_spec(ctx@, t@, mode),
{
    match compact_vocab_iri(ctx, t, mode) {
        Ok(Some(s)) => Ok(Json::String(s)),
        Ok(None) => Ok(Json::Null),
        Err(e) => Err(e),
    }
}

/// Appends an entry to a list of entries.
fn push_entry(e: &mut Vec<(String, Json)>, k: String, v: Json)
    ensures
        entries_view(final(e)@) == entries_view(old(e)@).push((k@, v@)),
{
    let ghost before = e@;
    e.push((k, v));
    proof {
        assert(e@.drop_last() =~= before);
    }
}

/// Computes [`with_index_spec`].
fn with_index_exec(ctx: &Context, e: Vec<(String, Json)>, index: Option<&String>, remove_index: bool, mode: ProcessingMode) -> (r: Result<Json, CompactError>)
    requires
        ctx.wf(),
    ensures
        compact_result(r) == with_index_spec(ctx@, entries_view(e@), opt_ref_str(index), remove_index, mode),
{
    if !remove_index {
        match index {
            Some(i) => {
                let k = match key_exec(ctx, Keyword::Index, mode) {
                    Ok(k) => k,
                    Err(x) => {
                        return Err(x);
                    },
                };
                let mut e = e;
                push_entry(&mut e, k, Json::String(i.clone()));
                return Ok(Json::Object(e));
            },
            None => {},
        }
    }
    Ok(Json::Object(e))
}

/// A literal as a JSON value.
fn literal_to_json(l: &Literal) -> (r: Json)
    ensures
        r@ == literal_json(*l),
{
    match l {
        Literal::Null => Json::Null,
        Literal::Boolean(b) => Json::Boolean(*b),
        Literal::Number(n) => Json::Number(n.clone()),
        Literal::String(s) => Json::String(s.clone()),
    }
}

/// Checks that two optional strings are equal.
fn opt_str_eq(a: Option<&String>, b: Option<&String>) -> (r: bool)
    ensures
        r == (opt_ref_str(a) == opt_ref_str(b)),
{
    match (a, b) {
        (None, None) => true,
        (Some(x), Some(y)) => str_eq(x.as_str(), y.as_str()),
        _ => false,
    }
}

/// Computes [`compact_literal_spec`].
#[verifier::rlimit(40)]
fn compact_literal_exec(ctx: &Context, lit: &Literal, ty: &Option<String>, language: Option<&String>, direction: Option<Direction>, tm: Option<&Type>, index: Option<&String>, remove_index: bool, mode: ProcessingMode) -> (r: Result<Json, CompactError>)
    requires
        ctx.wf(),
    ensures
        compact_result(r) == compact_literal_spec(ctx@, *lit, *ty, opt_ref_str(language), direction, match tm { Some(t) => Some(t@), None => None }, opt_ref_str(index), remove_index, mode),
{
    let same_type = match (ty, tm) {
        (None, None) => true,
        (Some(t), Some(Type::Ref(u))) => str_eq(t.as_str(), u.as_str()),
        _ => false,
    };
    let is_string = match lit {
        Literal::String(_) => true,
        _ => false,
    };
    if same_type && remove_index && !is_string {
        return Ok(literal_to_json(lit));
    }
    if same_type && remove_index && (ty.is_some() || (language.is_none() && direction.is_none())) {
        return Ok(literal_to_json(lit));
    }
    let kv = match key_exec(ctx, Keyword::Value, mode) {
        Ok(k) => k,
        Err(x) => {
            return Err(x);
        },
    };
    let mut e: Vec<(String, Json)> = Vec::new();
    proof {
        assert(entries_view(e@) =~= Seq::<(Seq<char>, JsonV)>::empty());
    }
    let ghost kvv = kv@;
    push_entry(&mut e, kv, literal_to_json(lit));
    assert(entries_view(e@) =~= seq![(kvv, literal_json(*lit))]);
    if !(same_type && remove_index) {
        match ty {
            None => {},
            Some(t) => {
                let kt = match key_exec(ctx, Keyword::Type, mode) {
                    Ok(k) => k,
                    Err(x) => {
                        return Err(x);
                    },
                };
                let tt = Term::Ref(Reference::Id(t.clone()));
                let ct = match iri_json_exec(ctx, &tt, mode) {
                    Ok(j) => j,
                    Err(x) => {
                        return Err(x);
                    },
                };
                let ghost ktv = kt@;
                let ghost ctv = ct@;
                push_entry(&mut e, kt, ct);
                assert(entries_view(e@) =~= seq![(kvv, literal_json(*lit)), (ktv, ctv)]);
            },
        }
    }
    with_index_exec(ctx, e, index, remove_index, mode)
}

/// Computes [`compact_lang_spec`].
#[verifier::rlimit(40)]
fn compact_lang_exec(ctx: &Context, ls: &LangString, language: Option<&String>, direction: Option<Direction>, index: Option<&String>, remove_index: bool, mode: ProcessingMode) -> (r: Result<Json, CompactError>)
    requires
        ctx.wf(),
    ensures
        compact_result(r) == compact_lang_spec(ctx@, *ls, opt_ref_str(language), direction, opt_ref_str(index), remove_index, mode),
{
    let lang_ok = match ls.language() {
        None => true,
        Some(l) => opt_str_eq(language, Some(l)),
    };
    let dir_ok = match ls.direction() {
        None => true,
        Some(d) => direction == Some(d),
    };
    if remove_index && lang_ok && dir_ok {
        return Ok(Json::String(to_string(ls.as_str())));
    }
    let kv = match key_exec(ctx, Keyword::Value, mode) {
        Ok(k) => k,
        Err(x) => {
            return Err(x);
        },
    };
    let mut e: Vec<(String, Json)> = Vec::new();
    proof {
        assert(entries_view(e@) =~= Seq::<(Seq<char>, JsonV)>::empty());
    }
    push_entry(&mut e, kv, Json::String(to_string(ls.as_str())));
    match ls.language() {
        Some(l) => {
            let kl = match key_exec(ctx, Keyword::Language, mode) {
                Ok(k) => k,
                Err(x) => {
                    return Err(x);
                },
            };
            push_entry(&mut e, kl, Json::String(l.clone()));
        },
        None => {},
    }
    match ls.direction() {
        Some(d) => {
            let kd = match key_exec(ctx, Keyword::Direction, mode) {
                Ok(k) => k,
                Err(x) => {
                    return Err(x);
                },
            };
            let dt = d.into_str();
            proof {
                assert(dt@ == direction_text(d));
            }
            push_entry(&mut e, kd, Json::String(to_string(dt)));
        },
        None => {},
    }
    with_index_exec(ctx, e, index, remove_index, mode)
}

/// Computes [`compact_json_spec`].
fn compact_json_exec(ctx: &Context, j: &Json, tm: Option<&Type>, index: Option<&String>, remove_index: bool, mode: ProcessingMode) -> (r: Result<Json, CompactError>)
    requires
        ctx.wf(),
    ensures
        compact_result(r) == compact_json_spec(ctx@, j@, match tm { Some(t) => Some(t@), None => None }, opt_ref_str(index), remove_index, mode),
{
    let is_json = match tm {
        Some(Type::Json) => true,
        _ => false,
    };
    if is_json && remove_index {
        return Ok(j.deep_clone());
    }
    let kv = match key_exec(ctx, Keyword::Value, mode) {
        Ok(k) => k,
        Err(x) => {
            return Err(x);
        },
    };
    let kt = match key_exec(ctx, Keyword::Type, mode) {
        Ok(k) => k,
        Err(x) => {
            return Err(x);
        },
    };
    let tj = Term::Keyword(Keyword::Json);
    let ct = match iri_json_exec(ctx, &tj, mode) {
        Ok(c) => c,
        Err(x) => {
            return Err(x);
        },
    };
    let mut e: Vec<(String, Json)> = Vec::new();
    proof {
        assert(entries_view(e@) =~= Seq::<(Seq<char>, JsonV)>::empty());
    }
    let ghost kvv = kv@;
    let ghost ktv = kt@;
    let ghost ctv = ct@;
    push_entry(&mut e, kv, j.deep_clone());
    push_entry(&mut e, kt, ct);
    assert(entries_view(e@) =~= seq![(kvv, j@), (ktv, ctv)]);
    with_index_exec(ctx, e, index, remove_index, mode)
}

/// Computes [`compact_value_core`].
fn compact_value_core_exec(ctx: &Context, value: &Value<String>, index: Option<&String>, ap: Option<&str>, mode: ProcessingMode) -> (r: Result<Json, CompactError>)
    requires
        ctx.wf(),
    ensures
        compact_result(r) == compact_value_core(ctx@, *value, opt_ref_str(index), opt_str(ap), mode),
{
    let def: Option<&TermDefinition> = match ap {
        Some(p) => ctx.get(p),
        None => None,
    };
    assert(match def { Some(d) => property_definition(ctx@, opt_str(ap)) == Some(d@), None => property_definition(ctx@, opt_str(ap)) is None });
    let language: Option<&String> = match def {
        Some(d) => match &d.language {
            Some(Nullable::Null) => None,
            Some(Nullable::Value(l)) => Some(l),
            None => ctx.default_language(),
        },
        None => ctx.default_language(),
    };
    let direction: Option<Direction> = match def {
        Some(d) => match d.direction {
            Some(Nullable::Null) => None,
            Some(Nullable::Value(x)) => Some(x),
            None => ctx.default_base_direction(),
        },
        None => ctx.default_base_direction(),
    };
    let tm: Option<&Type> = match def {
        Some(d) => d.typ.as_ref(),
        None => None,
    };
    let container = match def {
        Some(d) => d.container,
        None => Container::Empty,
    };
    let remove_index = index.is_none() || container.contains(ContainerKind::Index);
    match value {
        Value::Literal(lit, ty) => compact_literal_exec(ctx, lit, ty, language, direction, tm, index, remove_index, mode),
        Value::LangString(ls) => compact_lang_exec(ctx, ls, language, direction, index, remove_index, mode),
        Value::Json(j) => compact_json_exec(ctx, j, tm, index, remove_index, mode),
    }
}

/// Value compaction of a value object with its index, for the active
/// property `active_property` (see [`compact_value_spec`]).
pub fn compact_indexed_value_with(value: &Value<String>, index: Option<&String>, active: &Context, active_property: Option<&str>, store: &ContextStore, options: Options) -> (r: Result<Json, CompactError>)
    requires
        active.wf(),
    ensures
        compact_result(r) == compact_value_spec(store@, *value, opt_ref_str(index), active@, opt_str(active_property), options),
{
    let def: Option<&TermDefinition> = match active_property {
        Some(p) => active.get(p),
        None => None,
    };
    assert(match def { Some(d) => property_definition(active@, opt_str(active_property)) == Some(d@), None => property_definition(active@, opt_str(active_property)) is None });
    match def {
        Some(d) => match &d.context {
            Some(c) => {
                let popts = crate::processing::Options { processing_mode: options.processing_mode, override_protected: true, propagate: true };
                match process_full(c, store, active, d.base_url.as_ref(), popts) {
                    Err(e) => Err(CompactError::ContextProcessing(e)),
                    Ok((ctx2, _)) => compact_value_core_exec(&ctx2, value, index, active_property, options.processing_mode),
                }
            },
            None => compact_value_core_exec(active, value, index, active_property, options.processing_mode),
        },
        None => compact_value_core_exec(active, value, index, active_property, options.processing_mode),
    }
}

/// The compacted forms of the first `n` types, in order, relative to the
/// vocabulary of `ctx`; the first failure stops.
pub open spec fn types_json(ctx: ContextV, ts: Seq<ReferenceV>, n: int, mode: ProcessingMode) -> Result<Seq<JsonV>, CompactErrorV>
    decreases n,
{
    if n <= 0 || n > ts.len() {
        Ok(Seq::empty())
    } else {
        match types_json(ctx, ts, n - 1, mode) {
            Err(x) => Err(x),
            Ok(a) => match iri_json_spec(ctx, TermV::Ref(ts[n - 1]), mode) {
                Err(x) => Err(x),
                Ok(j) => Ok(a.push(j)),
            },
        }
    }
}

/// The view of a list of references.
pub open spec fn refs_view(ts: Seq<Reference>) -> Seq<ReferenceV> {
    Seq::new(ts.len(), |i: int| ts[i]@)
}

/// Compaction of the types of a node into the entries `result`: one type
/// gives its compacted form, several an array of them (each compacted with
/// the type-scoped context); the value is added under the alias of
/// `@type`, as an array when that alias has a `@set` container (JSON-LD
/// 1.1) or arrays are not compacted.
pub open spec fn compact_types_spec(result: Seq<(Seq<char>, JsonV)>, types: Option<Seq<ReferenceV>>, active: ContextV, type_scoped: ContextV, options: Options) -> Result<Seq<(Seq<char>, JsonV)>, CompactErrorV> {
    match types {
        Some(ts) if ts.len() > 0 => {
            let mode = options.processing_mode;
            let value = if ts.len() == 1 {
                iri_json_spec(type_scoped, TermV::Ref(ts[0]), mode)
            } else {
                match types_json(type_scoped, ts, ts.len() as int, mode) {
                    Err(x) => Err(x),
                    Ok(a) => Ok(JsonV::Array(a)),
                }
            };
            match value {
                Err(x) => Err(x),
                Ok(v) => match key_spec(active, Keyword::Type, mode) {
                    Err(x) => Err(x),
                    Ok(alias) => {
                        let container = if active.definitions.contains_key(alias) {
                            active.definitions[alias].container
                        } else {
                            Container::Empty
                        };
                        let as_array = (mode == ProcessingMode::JsonLd1_1 && container_kinds(container).contains(ContainerKind::SetKind))
                            || !options.compact_arrays;
                        Ok(add_value_spec(result, alias, v, as_array))
                    },
                },
            }
        },
        _ => Ok(result),
    }
}

/// Compacts the types of a node into `result` (see [`compact_types_spec`]);
/// on failure `result` is left as it was.
pub fn compact_types(result: &mut Vec<(String, Json)>, types: Option<&Vec<Reference>>, active: &Context, type_scoped: &Context, options: Options) -> (r: Result<(), CompactError>)
    requires
        active.wf(),
        type_scoped.wf(),
        unique_keys(entries_view(old(result)@)),
    ensures
        unique_keys(entries_view(final(result)@)),
        match r {
            Ok(_) => compact_types_spec(entries_view(old(result)@), match types { Some(t) => Some(refs_view(t@)), None => None }, active@, type_scoped@, options)
                == Ok::<Seq<(Seq<char>, JsonV)>, CompactErrorV>(entries_view(final(result)@)),
            Err(e) => compact_types_spec(entries_view(old(result)@), match types { Some(t) => Some(refs_view(t@)), None => None }, active@, type_scoped@, options)
                == Err::<Seq<(Seq<char>, JsonV)>, CompactErrorV>(compact_error_view(e))
                && final(result)@ == old(result)@,
        },
{
    let ts = match types {
        Some(ts) => ts,
        None => {
            return Ok(());
        },
    };
    if ts.len() == 0 {
        return Ok(());
    }
    let mode = options.processing_mode;
    let ghost tv = refs_view(ts@);
    let value = if ts.len() == 1 {
        let t = Term::Ref(ts[0].duplicate());
        match iri_json_exec(type_scoped, &t, mode) {
            Ok(j) => j,
            Err(x) => {
                return Err(x);
            },
        }
    } else {
        let mut items: Vec<Json> = Vec::new();
        let mut i: usize = 0;
        proof {
            assert(json_seq_view(items@) =~= Seq::<JsonV>::empty());
        }
        while i < ts.len()
            invariant
                i <= ts@.len(),
                type_scoped.wf(),
                tv == refs_view(ts@),
                ts@.len() > 1,
                types == Some(ts),
                mode == options.processing_mode,
                result@ == old(result)@,
                unique_keys(entries_view(result@)),
                types_json(type_scoped@, tv, i as int, mode) == Ok::<Seq<JsonV>, CompactErrorV>(json_seq_view(items@)),
            decreases ts@.len() - i,
        {
            let t = Term::Ref(ts[i].duplicate());
            let j = match iri_json_exec(type_scoped, &t, mode) {
                Ok(j) => j,
                Err(x) => {
                    proof {
                        assert(tv[i as int] == ts@[i as int]@);
                        lemma_types_json_err(type_scoped@, tv, i as int + 1, (ts@.len() as int), mode);
                    }
                    return Err(x);
                },
            };
            let ghost before = items@;
            items.push(j);
            proof {
                assert(items@.drop_last() =~= before);
                assert(tv[i as int] == ts@[i as int]@);
            }
            i = i + 1;
        }
        Json::Array(items)
    };
    let alias = match key_exec(active, Keyword::Type, mode) {
        Ok(a) => a,
        Err(x) => {
            return Err(x);
        },
    };
    let container = match active.get(alias.as_str()) {
        Some(d) => d.container,
        None => Container::Empty,
    };
    let as_array = (mode == ProcessingMode::JsonLd1_1 && container.contains(ContainerKind::SetKind)) || !options.compact_arrays;
    add_value(result, alias.as_str(), &value, as_array);
    Ok(())
}

/// A failure on the `n`-th type is the failure of all the first `m` types,
/// `m >= n`.
proof fn lemma_types_json_err(ctx: ContextV, ts: Seq<ReferenceV>, n: int, m: int, mode: ProcessingMode)
    requires
        0 < n <= m <= ts.len(),
        types_json(ctx, ts, n, mode) is Err,
    ensures
        types_json(ctx, ts, m, mode) == types_json(ctx, ts, n, mode),
    decreases m - n,
{
    if m > n {
        lemma_types_json_err(ctx, ts, n, m - 1, mode);
    }
}

/// IRI compaction of `var` not relative to the vocabulary, for no
/// particular value: `null` stays `null`; otherwise the first compact IRI,
/// else an error if `var` would be confused with a compact IRI, else `var`
/// made relative to the base IRI when that is asked for and both are IRI
/// references, else `var` itself.
pub open spec fn compact_document_iri_spec(ctx: ContextV, var: TermV, options: Options) -> Result<Option<Seq<char>>, ()> {
    if var is Null {
        Ok(None)
    } else {
        match compact_candidate(ctx, var) {
            Some(c) => Ok(Some(c)),
            None => if confused_with_prefix(ctx, term_text(var)) {
                Err(())
            } else {
                match (var, ctx.base_iri) {
                    (TermV::Ref(ReferenceV::Id(x)), Some(b)) => if options.compact_to_relative && iri_ref_valid(x) && iri_ref_valid(b) {
                        Ok(Some(relative_iri_of(x, b)))
                    } else {
                        Ok(Some(term_text(var)))
                    },
                    _ => Ok(Some(term_text(var))),
                }
            },
        }
    }
}

/// IRI compaction of `var` for no particular value, relative to the
/// vocabulary or not.
pub open spec fn compact_iri_full_spec(ctx: ContextV, var: TermV, vocab: bool, options: Options) -> Result<Option<Seq<char>>, ()> {
    if vocab {
        compact_iri_spec(ctx, var, options.processing_mode)
    } else {
        compact_document_iri_spec(ctx, var, options)
    }
}

/// IRI compaction of `var`, for no particular value, relative to the
/// vocabulary when `vocab` holds (see [`compact_iri_full_spec`]).
pub fn compact_iri(ctx: &Context, var: &Term, vocab: bool, options: Options) -> (r: Result<Option<String>, CompactError>)
    requires
        ctx.wf(),
    ensures
        match r {
            Ok(Some(s)) => compact_iri_full_spec(ctx@, var@, vocab, options) == Ok::<Option<Seq<char>>, ()>(Some(s@)),
            Ok(None) => compact_iri_full_spec(ctx@, var@, vocab, options) == Ok::<Option<Seq<char>>, ()>(None),
            Err(e) => compact_iri_full_spec(ctx@, var@, vocab, options) == Err::<Option<Seq<char>>, ()>(()) && e is IriConfusedWithPrefix,
        },
{
    if vocab {
        return compact_vocab_iri(ctx, var, options.processing_mode);
    }
    match var {
        Term::Null => {
            return Ok(None);
        },
        _ => {},
    }
    match compact_candidate_exec(ctx, var) {
        Some(c) => {
            return Ok(Some(c));
        },
        None => {},
    }
    let x = var.as_str();
    if confused_exec(ctx, x) {
        return Err(CompactError::IriConfusedWithPrefix);
    }
    if options.compact_to_relative {
        match var {
            Term::Ref(Reference::Id(iri)) => match ctx.base_iri() {
                Some(b) => {
                    if check_iri_ref(iri.as_str()) && check_iri_ref(b.as_str()) {
                        return Ok(Some(relative_to(iri.as_str(), b.as_str())));
                    }
                },
                None => {},
            },
            _ => {},
        }
    }
    Ok(Some(to_string(x)))
}

/// The `@value` of a value object as a JSON value.
pub open spec fn value_value_spec(v: Value<String>) -> JsonV {
    match v {
        Value::Literal(lit, _) => literal_json(lit),
        Value::LangString(ls) => JsonV::String(ls@.data),
        Value::Json(j) => j@,
    }
}

/// The `@value` of a value object as a JSON value.
pub fn value_value(v: &Value<String>) -> (r: Json)
    ensures
        r@ == value_value_spec(*v),
{
    match v {
        Value::Literal(lit, _) => literal_to_json(lit),
        Value::LangString(ls) => Json::String(to_string(ls.as_str())),
        Value::Json(j) => j.deep_clone(),
    }
}

/// Where the values of a property go, how, and with which container: the
/// entry of its nest term (which must be `@nest` or a term that stands for
/// it), else the object itself; as an array when the container includes
/// `@set`, the property is `@graph` or `@list`, or arrays are not compacted.
/// The first part is the nest term, if any.
pub open spec fn nest_selection(ctx: ContextV, p: Seq<char>, compact_arrays: bool) -> Result<(Option<Seq<char>>, Container, bool), CompactErrorV> {
    let container = if ctx.definitions.contains_key(p) { ctx.definitions[p].container } else { Container::Empty };
    let as_array = container_kinds(container).contains(ContainerKind::SetKind) || p == "@graph"@ || p == "@list"@ || !compact_arrays;
    if ctx.definitions.contains_key(p) {
        match ctx.definitions[p].nest {
            Some(n) => if n != "@nest"@ && !(ctx.definitions.contains_key(n)
                && ctx.definitions[n].value == Some(TermV::Keyword(Keyword::Nest))) {
                Err(CompactErrorV::InvalidNestValue)
            } else {
                Ok((Some(n), container, as_array))
            },
            None => Ok((None, container, as_array)),
        }
    } else {
        Ok((None, container, as_array))
    }
}

/// The entries after a nest entry `n` is made ready: an empty object is
/// added under `n` when there is none.
pub open spec fn with_nest_entry(e: Seq<(Seq<char>, JsonV)>, n: Seq<char>) -> Seq<(Seq<char>, JsonV)> {
    if crate::entries::key_at(e, n) is Some { e } else { e.push((n, JsonV::Object(Seq::empty()))) }
}

/// Selects where the values of the property `p` go (see
/// [`nest_selection`]) and, for a nest term, makes its entry ready in
/// `result` (see [`with_nest_entry`]); on failure `result` stays as it was.
pub fn select_nest_result(result: &mut Vec<(String, Json)>, active: &Context, p: &str, compact_arrays: bool) -> (r: Result<(Option<String>, Container, bool), CompactError>)
    requires
        active.wf(),
        unique_keys(entries_view(old(result)@)),
    ensures
        unique_keys(entries_view(final(result)@)),
        match r {
            Ok((n, c, a)) => nest_selection(active@, p@, compact_arrays) == Ok::<(Option<Seq<char>>, Container, bool), CompactErrorV>((match n { Some(x) => Some(x@), None => None }, c, a))
                && entries_view(final(result)@) == (match n { Some(x) => with_nest_entry(entries_view(old(result)@), x@), None => entries_view(old(result)@) }),
            Err(e) => nest_selection(active@, p@, compact_arrays) == Err::<(Option<Seq<char>>, Container, bool), CompactErrorV>(compact_error_view(e))
                && final(result)@ == old(result)@,
        },
{
    proof {
        reveal_strlit("@nest");
        reveal_strlit("@graph");
        reveal_strlit("@list");
    }
    let def = active.get(p);
    let container = match def {
        Some(d) => d.container,
        None => Container::Empty,
    };
    let as_array = container.contains(ContainerKind::SetKind) || str_eq(p, "@graph") || str_eq(p, "@list") || !compact_arrays;
    let d = match def {
        Some(d) => d,
        None => {
            return Ok((None, container, as_array));
        },
    };
    match &d.nest {
        None => Ok((None, container, as_array)),
        Some(n) => {
            if !str_eq(n.as_str(), "@nest") {
                let ok = match active.get(n.as_str()) {
                    Some(nd) => match &nd.value {
                        Some(Term::Keyword(Keyword::Nest)) => true,
                        _ => false,
                    },
                    None => false,
                };
                if !ok {
                    return Err(CompactError::InvalidNestValue);
                }
            }
            match crate::entries::find_entry(result, n.as_str()) {
                Some(_) => {},
                None => {
                    let ghost before = result@;
                    let empty: Vec<(String, Json)> = Vec::new();
                    let j = Json::Object(empty);
                    proof {
                        assert(entries_view(empty@) =~= Seq::<(Seq<char>, JsonV)>::empty());
                        assert(j@ == JsonV::Object(Seq::empty()));
                    }
                    let k = n.clone();
                    result.push((k, j));
                    proof {
                        assert(result@.drop_last() =~= before);
                        assert(entries_view(result@) == entries_view(before).push((n@, JsonV::Object(Seq::empty()))));
                        crate::entries::lemma_unique_push_absent(entries_view(before), n@, JsonV::Object(Seq::empty()));
                    }
                },
            }
            let out = n.clone();
            assert(d@.nest == Some(n@));
            Ok((Some(out), container, as_array))
        },
    }
}

/// When arrays are not compacted, the types of a node (one or more) end up
/// in an array under the alias of `@type`, whatever the entries were.
pub proof fn lemma_types_kept_in_array(result: Seq<(Seq<char>, JsonV)>, ts: Seq<ReferenceV>, active: ContextV, type_scoped: ContextV, options: Options)
    requires
        unique_keys(result),
        ts.len() > 0,
        !options.compact_arrays,
    ensures
        match (key_spec(active, Keyword::Type, options.processing_mode), compact_types_spec(result, Some(ts), active, type_scoped, options)) {
            (Ok(k), Ok(e)) => array_entry(e, k) && unique_keys(e),
            _ => true,
        },
{
    let mode = options.processing_mode;
    let value = if ts.len() == 1 {
        iri_json_spec(type_scoped, TermV::Ref(ts[0]), mode)
    } else {
        match types_json(type_scoped, ts, ts.len() as int, mode) {
            Err(x) => Err(x),
            Ok(a) => Ok(JsonV::Array(a)),
        }
    };
    match (value, key_spec(active, Keyword::Type, mode)) {
        (Ok(v), Ok(k)) => {
            lemma_add_as_array_gives_array(result, k, v);
        },
        _ => {},
    }
}

/// A literal that is not a string, with no datatype and no index, compacts
/// to itself as a JSON scalar for any active property without a type
/// mapping or a scoped context, whatever the default language and direction.
pub proof fn lemma_scalar_literal_compacts_to_itself(store: Seq<(Seq<char>, JsonV)>, lit: Literal, ctx: ContextV, ap: Option<Seq<char>>, options: Options)
    requires
        !(lit is String),
        match property_definition(ctx, ap) {
            Some(d) => d.typ is None && d.context is None,
            None => true,
        },
    ensures
        compact_value_spec(store, Value::Literal(lit, None), None, ctx, ap, options) == Ok::<JsonV, CompactErrorV>(match lit {
            Literal::Null => JsonV::Null,
            Literal::Boolean(b) => JsonV::Boolean(b),
            Literal::Number(n) => JsonV::Number(n@),
            Literal::String(s) => JsonV::String(s@),
        }),
{
}

/// A string literal with no datatype and no index, for an active property
/// without type, language or direction mapping nor scoped context, compacts
/// to the bare string when the active context has no default language nor
/// direction, and to a value object otherwise.
pub proof fn lemma_string_literal_compaction(store: Seq<(Seq<char>, JsonV)>, s: String, ctx: ContextV, ap: Option<Seq<char>>, options: Options)
    requires
        match property_definition(ctx, ap) {
            Some(d) => d.typ is None && d.context is None && d.language is None && d.direction is None,
            None => true,
        },
    ensures
        ctx.default_language is None && ctx.default_base_direction is None ==>
            compact_value_spec(store, Value::Literal(Literal::String(s), None), None, ctx, ap, options) == Ok::<JsonV, CompactErrorV>(JsonV::String(s@)),
        !(ctx.default_language is None && ctx.default_base_direction is None) ==>
            (compact_value_spec(store, Value::Literal(Literal::String(s), None), None, ctx, ap, options) matches Ok(j) ==> j is Object),
{
}

/// When arrays are compacted, one type of a node goes alone (not in an
/// array) under an alias of `@type` that has no `@set` container and no
/// entry yet.
pub proof fn lemma_single_type_not_in_array(result: Seq<(Seq<char>, JsonV)>, t: ReferenceV, active: ContextV, type_scoped: ContextV, options: Options)
    requires
        options.compact_arrays,
    ensures
        match (key_spec(active, Keyword::Type, options.processing_mode), iri_json_spec(type_scoped, TermV::Ref(t), options.processing_mode)) {
            (Ok(k), Ok(v)) => key_at(result, k) is None
                && !(active.definitions.contains_key(k) && container_kinds(active.definitions[k].container).contains(ContainerKind::SetKind))
                ==> compact_types_spec(result, Some(seq![t]), active, type_scoped, options) == Ok::<Seq<(Seq<char>, JsonV)>, CompactErrorV>(result.push((k, v))),
            _ => true,
        },
{
}

/// A JSON literal for an active property whose type mapping is `@json`
/// (and no scoped context), with no index, compacts to the JSON value
/// itself; for an active property without type mapping it becomes a value
/// object.
pub proof fn lemma_json_literal_compaction(store: Seq<(Seq<char>, JsonV)>, j: Json, ctx: ContextV, ap: Option<Seq<char>>, options: Options)
    ensures
        (property_definition(ctx, ap) matches Some(d) && d.typ == Some(TypeV::Json) && d.context is None) ==>
            compact_value_spec(store, Value::Json(j), None, ctx, ap, options) == Ok::<JsonV, CompactErrorV>(j@),
        (match property_definition(ctx, ap) { Some(d) => d.typ is None && d.context is None, None => true }) ==>
            (compact_value_spec(store, Value::Json(j), None, ctx, ap, options) matches Ok(r) ==> r is Object),
{
}

/// A language string with no index whose language is the one that applies
/// (the active property's language mapping, else the default language) and
/// that has no direction compacts to its bare text; one whose language
/// differs becomes a value object.
pub proof fn lemma_lang_string_compaction(store: Seq<(Seq<char>, JsonV)>, ls: LangString, ctx: ContextV, ap: Option<Seq<char>>, options: Options)
    requires
        ls@.direction is None,
        match property_definition(ctx, ap) { Some(d) => d.context is None, None => true },
    ensures
        ls@.language == value_language(ctx, property_definition(ctx, ap)) ==>
            compact_value_spec(store, Value::LangString(ls), None, ctx, ap, options) == Ok::<JsonV, CompactErrorV>(JsonV::String(ls@.data)),
        ls@.language is Some && ls@.language != value_language(ctx, property_definition(ctx, ap)) ==>
            (compact_value_spec(store, Value::LangString(ls), None, ctx, ap, options) matches Ok(r) ==> r is Object),
{
}

/// A value with an index, for an active property whose container does not
/// include `@index`, is never compacted to a bare scalar: the index is
/// kept in a value object.
pub proof fn lemma_index_kept_in_value_object(store: Seq<(Seq<char>, JsonV)>, v: Value<String>, i: Seq<char>, ctx: ContextV, ap: Option<Seq<char>>, options: Options)
    requires
        match property_definition(ctx, ap) {
            Some(d) => d.context is None && !container_kinds(d.container).contains(ContainerKind::Index),
            None => true,
        },
    ensures
        compact_value_spec(store, v, Some(i), ctx, ap, options) matches Ok(r) ==> r is Object,
{
}

} // verus!

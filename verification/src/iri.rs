//! IRIs, blank node identifiers and language tags, and the IRI helpers of
//! context processing.
//!
//! Whether a string is an IRI, how an IRI reference resolves against a base IRI
//! and whether a language tag is well-formed are decided by the `iref` and
//! `langtag` crates; what the library builds on them is verified here.
use vstd::prelude::*;
use crate::id::{Reference, ReferenceV, Term, TermV, reference_text};
use crate::syntax::keyword_text;
use crate::text::{find_char, rfind_char, spec_find, spec_rfind, lemma_find, lemma_rfind};

verus! {

/// Whether `s` is an IRI, as `iref::Iri::new` decides.
pub uninterp spec fn iri_valid(s: Seq<char>) -> bool;

/// Whether `s` is an IRI reference, as `iref::IriRef::new` decides.
pub uninterp spec fn iri_ref_valid(s: Seq<char>) -> bool;

/// The IRI that `iref::IriRef::resolved` gives for the IRI reference `reference`
/// resolved against the base IRI `base`.
pub uninterp spec fn resolved_iri(reference: Seq<char>, base: Seq<char>) -> Seq<char>;

/// Whether `s` is a well-formed language tag, as
/// `langtag::LanguageTagBuf::parse_copy` decides.
pub uninterp spec fn language_tag_valid(s: Seq<char>) -> bool;

/// Checks that `s` is an IRI, by `iref::Iri::new`.
///
/// Trusted: the answer is `iri_valid(s)`, and every IRI is an IRI reference
/// (`Iri::new` parses its input with `IriRef::new` first and then asks for a
/// scheme).
#[verifier::external_body]
pub(crate) fn check_iri(s: &str) -> (r: bool)
    ensures
        r == iri_valid(s@),
        r ==> iri_ref_valid(s@),
{
    iref::Iri::new(s).is_ok()
}

/// Checks that `s` is an IRI reference, by `iref::IriRef::new`.
///
/// Trusted: the answer is `iri_ref_valid(s)`.
#[verifier::external_body]
pub(crate) fn check_iri_ref(s: &str) -> (r: bool)
    ensures
        r == iri_ref_valid(s@),
{
    iref::IriRef::new(s).is_ok()
}

/// Resolves the IRI reference `reference` against the IRI `base`
/// (`iref::IriRef::resolved`, RFC 3986 reference resolution).
///
/// Trusted: the result is `resolved_iri(reference, base)`. Both arguments are
/// parsed first; the `requires` rules out the inputs on which parsing fails.
#[verifier::external_body]
pub(crate) fn resolve_reference(reference: &str, base: &str) -> (r: String)
    requires
        iri_ref_valid(reference@),
        iri_valid(base@),
    ensures
        r@ == resolved_iri(reference@, base@),
{
    let base = iref::Iri::new(base).unwrap();
    iref::IriRef::new(reference).unwrap().resolved(base).as_str().to_string()
}

/// The IRI reference that `iref::IriRef::relative_to` gives for `iri`
/// relative to `base`.
pub uninterp spec fn relative_iri_of(iri: Seq<char>, base: Seq<char>) -> Seq<char>;

/// `iri` made relative to `base` (`iref::IriRef::relative_to`).
///
/// Trusted: the result is `relative_iri_of(iri, base)`, a function of the
/// two texts alone; both must be IRI references.
#[verifier::external_body]
pub(crate) fn relative_to(iri: &str, base: &str) -> (r: String)
    requires
        iri_ref_valid(iri@),
        iri_ref_valid(base@),
    ensures
        r@ == relative_iri_of(iri@, base@),
{
    let base = iref::IriRef::new(base).unwrap();
    iref::IriRef::new(iri).unwrap().relative_to(base).as_str().to_string()
}

/// Checks that `s` is a well-formed language tag, by
/// `langtag::LanguageTagBuf::parse_copy`.
///
/// Trusted: the answer is `language_tag_valid(s)`.
#[verifier::external_body]
pub(crate) fn check_language_tag(s: &str) -> (r: bool)
    ensures
        r == language_tag_valid(s@),
{
    langtag::LanguageTagBuf::parse_copy(s).is_ok()
}

/// `PN_CHARS_BASE` of the RDF grammars.
pub open spec fn is_pn_char_base(c: char) -> bool {
    ||| ('A' <= c && c <= 'Z')
    ||| ('a' <= c && c <= 'z')
    ||| ('\u{00c0}' <= c && c <= '\u{00d6}')
    ||| ('\u{00d8}' <= c && c <= '\u{00f6}')
    ||| ('\u{00f8}' <= c && c <= '\u{02ff}')
    ||| ('\u{0370}' <= c && c <= '\u{037d}')
    ||| ('\u{037f}' <= c && c <= '\u{1fff}')
    ||| ('\u{200c}' <= c && c <= '\u{200d}')
    ||| ('\u{2070}' <= c && c <= '\u{218f}')
    ||| ('\u{2c00}' <= c && c <= '\u{2fef}')
    ||| ('\u{3001}' <= c && c <= '\u{d7ff}')
    ||| ('\u{f900}' <= c && c <= '\u{fdcf}')
    ||| ('\u{fdf0}' <= c && c <= '\u{fffd}')
    ||| ('\u{10000}' <= c && c <= '\u{effff}')
}

/// `PN_CHARS_U`: a base character, `_` or `:`.
pub open spec fn is_pn_char_u(c: char) -> bool {
    is_pn_char_base(c) || c == '_' || c == ':'
}

/// `PN_CHARS`.
pub open spec fn is_pn_char(c: char) -> bool {
    ||| is_pn_char_u(c)
    ||| c == '-'
    ||| ('0' <= c && c <= '9')
    ||| c == '\u{00b7}'
    ||| ('\u{0300}' <= c && c <= '\u{036f}')
    ||| ('\u{203f}' <= c && c <= '\u{2040}')
}

/// A blank node identifier: `_:` followed by a digit or a `PN_CHARS_U`
/// character, then any number of `PN_CHARS` characters.
pub open spec fn blank_id_valid(s: Seq<char>) -> bool {
    &&& s.len() >= 3
    &&& s[0] == '_'
    &&& s[1] == ':'
    &&& (('0' <= s[2] && s[2] <= '9') || is_pn_char_u(s[2]))
    &&& forall|i: int| 3 <= i < s.len() ==> is_pn_char(#[trigger] s[i])
}

/// Checks that `s` is a blank node identifier, by `rdf_types::BlankId::new`.
///
/// Trusted: the answer is `blank_id_valid(s)`, the grammar that the crate's
/// `check` function implements.
#[verifier::external_body]
pub(crate) fn check_blank_id(s: &str) -> (r: bool)
    ensures
        r == blank_id_valid(s@),
{
    rdf_types::BlankId::new(s).is_ok()
}

/// The reference that a string denotes: an IRI, else a blank node identifier,
/// else an invalid reference.
pub open spec fn reference_of(s: Seq<char>) -> ReferenceV {
    if iri_valid(s) {
        ReferenceV::Id(s)
    } else if blank_id_valid(s) {
        ReferenceV::Blank(s)
    } else {
        ReferenceV::Invalid(s)
    }
}

impl Reference {
    /// The reference that `s` denotes: an IRI, else a blank node identifier,
    /// else an invalid reference.
    pub fn from_string(s: String) -> (r: Reference)
        ensures
            r@ == reference_of(s@),
    {
        if check_iri(s.as_str()) {
            Reference::Id(s)
        } else if check_blank_id(s.as_str()) {
            Reference::Blank(s)
        } else {
            Reference::Invalid(s)
        }
    }
}

/// The text of a term: empty for `null`, the keyword, or the reference.
pub open spec fn term_text(t: TermV) -> Seq<char> {
    match t {
        TermV::Null => Seq::empty(),
        TermV::Keyword(k) => keyword_text(k),
        TermV::Ref(r) => reference_text(r),
    }
}

impl Term {
    /// The text of the term: empty for `null`, the keyword, or the reference.
    pub fn as_str(&self) -> (r: &str)
        ensures
            r@ == term_text(self@),
    {
        proof {
            reveal_strlit("");
        }
        match self {
            Term::Null => "",
            Term::Keyword(k) => k.into_str(),
            Term::Ref(r) => r.as_str(),
        }
    }
}

/// Generic delimiter characters of RFC 3986: `:`, `/`, `?`, `#`, `[`, `]`, `@`.
pub open spec fn spec_is_gen_delim(c: char) -> bool {
    c == ':' || c == '/' || c == '?' || c == '#' || c == '[' || c == ']' || c == '@'
}

/// Checks if `c` is a generic delimiter of RFC 3986.
pub fn is_gen_delim(c: char) -> (r: bool)
    ensures
        r == spec_is_gen_delim(c),
{
    c == ':' || c == '/' || c == '?' || c == '#' || c == '[' || c == ']' || c == '@'
}

/// A blank node identifier, or an IRI whose last character is a generic delimiter.
pub open spec fn spec_is_gen_delim_or_blank(t: TermV) -> bool {
    match t {
        TermV::Ref(ReferenceV::Blank(_)) => true,
        TermV::Ref(ReferenceV::Id(iri)) => iri.len() > 0 && spec_is_gen_delim(iri.last()),
        _ => false,
    }
}

/// Checks if the term is a blank node identifier, or an IRI ending with a
/// generic delimiter.
pub fn is_gen_delim_or_blank(t: &Term) -> (r: bool)
    ensures
        r == spec_is_gen_delim_or_blank(t@),
{
    match t {
        Term::Ref(Reference::Blank(_)) => true,
        Term::Ref(Reference::Id(iri)) => {
            let n = iri.as_str().unicode_len();
            if n > 0 {
                is_gen_delim(iri.as_str().get_char(n - 1))
            } else {
                false
            }
        },
        _ => false,
    }
}

/// `c` occurs in `s` other than as its first character.
pub open spec fn spec_contains_after_first(s: Seq<char>, c: char) -> bool {
    exists|i: int| 0 < i < s.len() && s[i] == c
}

/// Checks if `c` occurs in `s` anywhere but at the first position.
pub fn contains_after_first(s: &str, c: char) -> (r: bool)
    ensures
        r == spec_contains_after_first(s@, c),
{
    let n = s.unicode_len();
    let mut i: usize = 1;
    while i < n
        invariant
            n == s@.len(),
            1 <= i,
            forall|j: int| 0 < j < i && j < n ==> s@[j] != c,
        decreases n - i,
    {
        if s.get_char(i) == c {
            return true;
        }
        i = i + 1;
    }
    false
}

/// `c` occurs in `s` at neither end: at some position other than the first
/// and the last.
pub open spec fn spec_contains_between_boundaries(s: Seq<char>, c: char) -> bool {
    exists|i: int| 0 < i < s.len() - 1 && s[i] == c
}

/// Checks if `c` occurs in `s` anywhere but at its first or last position.
pub fn contains_between_boundaries(s: &str, c: char) -> (r: bool)
    ensures
        r == spec_contains_between_boundaries(s@, c),
{
    let n = s.unicode_len();
    if n < 2 {
        return false;
    }
    let last = n - 1;
    let mut i: usize = 1;
    while i < last
        invariant
            n == s@.len(),
            last == n - 1,
            1 <= i,
            forall|j: int| 0 < j < i && j < last ==> s@[j] != c,
        decreases last - i,
    {
        if s.get_char(i) == c {
            return true;
        }
        i = i + 1;
    }
    false
}

/// The prefix and suffix of a compact IRI: the text before and after the
/// first colon, which must not be the first character; a prefix `_` (blank
/// node identifiers) and a suffix starting with `//` (IRIs) are excluded.
pub open spec fn compact_iri_parts(s: Seq<char>) -> Option<(Seq<char>, Seq<char>)> {
    match spec_find(s, ':') {
        Some(i) => {
            let prefix = s.subrange(0, i);
            let suffix = s.subrange(i + 1, s.len() as int);
            if i > 0 && prefix != seq!['_'] && !(suffix.len() >= 2 && suffix[0] == '/' && suffix[1] == '/') {
                Some((prefix, suffix))
            } else {
                None
            }
        },
        None => None,
    }
}

/// Splits a compact IRI into its prefix and suffix.
pub fn split_compact_iri(s: &str) -> (r: Option<(&str, &str)>)
    ensures
        r matches Some((p, q)) ==> compact_iri_parts(s@) == Some((p@, q@)),
        r is None ==> compact_iri_parts(s@) is None,
{
    proof {
        lemma_find(s@, ':');
    }
    match find_char(s, ':') {
        Some(i) => {
            let n = s.unicode_len();
            let prefix = s.substring_char(0, i);
            let suffix = s.substring_char(i + 1, n);
            let blank = i == 1 && s.get_char(0) == '_';
            let slashes = n - i >= 3 && s.get_char(i + 1) == '/' && s.get_char(i + 2) == '/';
            proof {
                if blank {
                    assert(prefix@ =~= seq!['_']);
                } else if i == 1 {
                    assert(prefix@[0] == s@[0]);
                    assert(prefix@ != seq!['_']);
                } else {
                    assert(prefix@.len() != 1);
                }
                if suffix@.len() >= 2 {
                    assert(suffix@[0] == s@[i + 1]);
                    assert(suffix@[1] == s@[i + 2]);
                }
            }
            if i > 0 && !blank && !slashes {
                Some((prefix, suffix))
            } else {
                None
            }
        },
        None => None,
    }
}

} // verus!

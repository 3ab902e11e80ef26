//! JSON-LD keywords, container kinds, directions and processing modes.
use vstd::prelude::*;
use crate::text::str_eq;

verus! {

/// JSON-LD keywords.
#[derive(Clone, Copy, PartialEq, Eq, Structural, Debug, Hash)]
pub enum Keyword {
    Base,
    Container,
    Context,
    Direction,
    Graph,
    Id,
    Import,
    Included,
    Index,
    Json,
    Language,
    List,
    Nest,
    NoneKw,
    Prefix,
    Propagate,
    Protected,
    Reverse,
    SetKw,
    Type,
    Value,
    Version,
    Vocab,
}

/// The text of a keyword.
pub open spec fn keyword_text(k: Keyword) -> Seq<char> {
    match k {
        Keyword::Base => "@base"@,
        Keyword::Container => "@container"@,
        Keyword::Context => "@context"@,
        Keyword::Direction => "@direction"@,
        Keyword::Graph => "@graph"@,
        Keyword::Id => "@id"@,
        Keyword::Import => "@import"@,
        Keyword::Included => "@included"@,
        Keyword::Index => "@index"@,
        Keyword::Json => "@json"@,
        Keyword::Language => "@language"@,
        Keyword::List => "@list"@,
        Keyword::Nest => "@nest"@,
        Keyword::NoneKw => "@none"@,
        Keyword::Prefix => "@prefix"@,
        Keyword::Propagate => "@propagate"@,
        Keyword::Protected => "@protected"@,
        Keyword::Reverse => "@reverse"@,
        Keyword::SetKw => "@set"@,
        Keyword::Type => "@type"@,
        Keyword::Value => "@value"@,
        Keyword::Version => "@version"@,
        Keyword::Vocab => "@vocab"@,
    }
}

/// The keyword whose text is `s`, if any.
pub open spec fn keyword_of(s: Seq<char>) -> Option<Keyword> {
    if s == "@base"@ { Some(Keyword::Base) }
    else if s == "@container"@ { Some(Keyword::Container) }
    else if s == "@context"@ { Some(Keyword::Context) }
    else if s == "@direction"@ { Some(Keyword::Direction) }
    else if s == "@graph"@ { Some(Keyword::Graph) }
    else if s == "@id"@ { Some(Keyword::Id) }
    else if s == "@import"@ { Some(Keyword::Import) }
    else if s == "@included"@ { Some(Keyword::Included) }
    else if s == "@index"@ { Some(Keyword::Index) }
    else if s == "@json"@ { Some(Keyword::Json) }
    else if s == "@language"@ { Some(Keyword::Language) }
    else if s == "@list"@ { Some(Keyword::List) }
    else if s == "@nest"@ { Some(Keyword::Nest) }
    else if s == "@none"@ { Some(Keyword::NoneKw) }
    else if s == "@prefix"@ { Some(Keyword::Prefix) }
    else if s == "@propagate"@ { Some(Keyword::Propagate) }
    else if s == "@protected"@ { Some(Keyword::Protected) }
    else if s == "@reverse"@ { Some(Keyword::Reverse) }
    else if s == "@set"@ { Some(Keyword::SetKw) }
    else if s == "@type"@ { Some(Keyword::Type) }
    else if s == "@value"@ { Some(Keyword::Value) }
    else if s == "@version"@ { Some(Keyword::Version) }
    else if s == "@vocab"@ { Some(Keyword::Vocab) }
    else { None }
}

impl Keyword {
    /// The keyword text, such as `"@id"`.
    pub fn into_str(self) -> (r: &'static str)
        ensures
            r@ == keyword_text(self),
    {
        match self {
            Keyword::Base => "@base",
            Keyword::Container => "@container",
            Keyword::Context => "@context",
            Keyword::Direction => "@direction",
            Keyword::Graph => "@graph",
            Keyword::Id => "@id",
            Keyword::Import => "@import",
            Keyword::Included => "@included",
            Keyword::Index => "@index",
            Keyword::Json => "@json",
            Keyword::Language => "@language",
            Keyword::List => "@list",
            Keyword::Nest => "@nest",
            Keyword::NoneKw => "@none",
            Keyword::Prefix => "@prefix",
            Keyword::Propagate => "@propagate",
            Keyword::Protected => "@protected",
            Keyword::Reverse => "@reverse",
            Keyword::SetKw => "@set",
            Keyword::Type => "@type",
            Keyword::Value => "@value",
            Keyword::Version => "@version",
            Keyword::Vocab => "@vocab",
        }
    }

    /// Parses a keyword.
    pub fn try_from_str(s: &str) -> (r: Option<Keyword>)
        ensures
            r == keyword_of(s@),
    {
        if str_eq(s, "@base") { Some(Keyword::Base) }
        else if str_eq(s, "@container") { Some(Keyword::Container) }
        else if str_eq(s, "@context") { Some(Keyword::Context) }
        else if str_eq(s, "@direction") { Some(Keyword::Direction) }
        else if str_eq(s, "@graph") { Some(Keyword::Graph) }
        else if str_eq(s, "@id") { Some(Keyword::Id) }
        else if str_eq(s, "@import") { Some(Keyword::Import) }
        else if str_eq(s, "@included") { Some(Keyword::Included) }
        else if str_eq(s, "@index") { Some(Keyword::Index) }
        else if str_eq(s, "@json") { Some(Keyword::Json) }
        else if str_eq(s, "@language") { Some(Keyword::Language) }
        else if str_eq(s, "@list") { Some(Keyword::List) }
        else if str_eq(s, "@nest") { Some(Keyword::Nest) }
        else if str_eq(s, "@none") { Some(Keyword::NoneKw) }
        else if str_eq(s, "@prefix") { Some(Keyword::Prefix) }
        else if str_eq(s, "@propagate") { Some(Keyword::Propagate) }
        else if str_eq(s, "@protected") { Some(Keyword::Protected) }
        else if str_eq(s, "@reverse") { Some(Keyword::Reverse) }
        else if str_eq(s, "@set") { Some(Keyword::SetKw) }
        else if str_eq(s, "@type") { Some(Keyword::Type) }
        else if str_eq(s, "@value") { Some(Keyword::Value) }
        else if str_eq(s, "@version") { Some(Keyword::Version) }
        else if str_eq(s, "@vocab") { Some(Keyword::Vocab) }
        else { None }
    }
}

/// Checks if the given string is a keyword.
pub open spec fn spec_is_keyword(s: Seq<char>) -> bool {
    keyword_of(s) is Some
}

/// Checks if the given string is a keyword.
pub fn is_keyword(s: &str) -> (r: bool)
    ensures
        r == spec_is_keyword(s@),
{
    Keyword::try_from_str(s).is_some()
}

/// ASCII letter.
pub open spec fn is_ascii_alpha(c: char) -> bool {
    ('a' <= c && c <= 'z') || ('A' <= c && c <= 'Z')
}

/// Has the form of a keyword: `@` followed by one or more ASCII letters.
pub open spec fn spec_is_keyword_like(s: Seq<char>) -> bool {
    &&& s.len() >= 2
    &&& s[0] == '@'
    &&& forall|i: int| 1 <= i < s.len() ==> is_ascii_alpha(#[trigger] s[i])
}

/// Checks if the given string has the form of a keyword.
pub fn is_keyword_like(s: &str) -> (r: bool)
    ensures
        r == spec_is_keyword_like(s@),
{
    let n = s.unicode_len();
    if n < 2 || s.get_char(0) != '@' {
        return false;
    }
    let mut i: usize = 1;
    while i < n
        invariant
            n == s@.len(),
            1 <= i <= n,
            forall|j: int| 1 <= j < i ==> is_ascii_alpha(#[trigger] s@[j]),
        decreases n - i,
    {
        let c = s.get_char(i);
        if !(('a' <= c && c <= 'z') || ('A' <= c && c <= 'Z')) {
            return false;
        }
        i = i + 1;
    }
    true
}

/// Keywords have the form of a keyword.
pub proof fn lemma_keyword_is_keyword_like(s: Seq<char>)
    requires
        spec_is_keyword(s),
    ensures
        spec_is_keyword_like(s),
{
    reveal_strlit("@base");
    reveal_strlit("@container");
    reveal_strlit("@context");
    reveal_strlit("@direction");
    reveal_strlit("@graph");
    reveal_strlit("@id");
    reveal_strlit("@import");
    reveal_strlit("@included");
    reveal_strlit("@index");
    reveal_strlit("@json");
    reveal_strlit("@language");
    reveal_strlit("@list");
    reveal_strlit("@nest");
    reveal_strlit("@none");
    reveal_strlit("@prefix");
    reveal_strlit("@propagate");
    reveal_strlit("@protected");
    reveal_strlit("@reverse");
    reveal_strlit("@set");
    reveal_strlit("@type");
    reveal_strlit("@value");
    reveal_strlit("@version");
    reveal_strlit("@vocab");
}

/// Base direction of a string.
#[derive(Clone, Copy, PartialEq, Eq, Structural, Debug, Hash)]
pub enum Direction {
    Ltr,
    Rtl,
}

impl Direction {
    /// The text of the direction: `"ltr"` or `"rtl"`.
    pub fn into_str(self) -> (r: &'static str)
        ensures
            r@ == (match self {
                Direction::Ltr => "ltr"@,
                Direction::Rtl => "rtl"@,
            }),
    {
        match self {
            Direction::Ltr => "ltr",
            Direction::Rtl => "rtl",
        }
    }

    /// Parses a direction.
    pub fn try_from_str(s: &str) -> (r: Option<Direction>)
        ensures
            r == (if s@ == "ltr"@ {
                Some(Direction::Ltr)
            } else if s@ == "rtl"@ {
                Some(Direction::Rtl)
            } else {
                None
            }),
    {
        if str_eq(s, "ltr") {
            Some(Direction::Ltr)
        } else if str_eq(s, "rtl") {
            Some(Direction::Rtl)
        } else {
            None
        }
    }
}

/// JSON-LD processing mode.
#[derive(Clone, Copy, PartialEq, Eq, Structural, Debug, Hash)]
pub enum ProcessingMode {
    JsonLd1_0,
    JsonLd1_1,
}

impl ProcessingMode {
    /// The default processing mode, JSON-LD 1.1.
    pub fn default_mode() -> (r: ProcessingMode)
        ensures
            r == ProcessingMode::JsonLd1_1,
    {
        ProcessingMode::JsonLd1_1
    }

    /// The name of the mode: `"json-ld-1.0"` or `"json-ld-1.1"`.
    pub fn into_str(self) -> (r: &'static str)
        ensures
            r@ == (match self {
                ProcessingMode::JsonLd1_0 => "json-ld-1.0"@,
                ProcessingMode::JsonLd1_1 => "json-ld-1.1"@,
            }),
    {
        match self {
            ProcessingMode::JsonLd1_0 => "json-ld-1.0",
            ProcessingMode::JsonLd1_1 => "json-ld-1.1",
        }
    }
}

/// Container kinds.
#[derive(Clone, Copy, PartialEq, Eq, Structural, Debug, Hash)]
pub enum ContainerKind {
    Graph,
    Id,
    Index,
    Language,
    List,
    SetKind,
    Type,
}

/// The keyword text of a container kind.
pub open spec fn container_kind_text(c: ContainerKind) -> Seq<char> {
    match c {
        ContainerKind::Graph => "@graph"@,
        ContainerKind::Id => "@id"@,
        ContainerKind::Index => "@index"@,
        ContainerKind::Language => "@language"@,
        ContainerKind::List => "@list"@,
        ContainerKind::SetKind => "@set"@,
        ContainerKind::Type => "@type"@,
    }
}

/// The container kind named by `s`, if any.
pub open spec fn container_kind_of(s: Seq<char>) -> Option<ContainerKind> {
    if s == "@graph"@ { Some(ContainerKind::Graph) }
    else if s == "@id"@ { Some(ContainerKind::Id) }
    else if s == "@index"@ { Some(ContainerKind::Index) }
    else if s == "@language"@ { Some(ContainerKind::Language) }
    else if s == "@list"@ { Some(ContainerKind::List) }
    else if s == "@set"@ { Some(ContainerKind::SetKind) }
    else if s == "@type"@ { Some(ContainerKind::Type) }
    else { None }
}

impl ContainerKind {
    /// The keyword text of the container kind.
    pub fn into_str(self) -> (r: &'static str)
        ensures
            r@ == container_kind_text(self),
    {
        match self {
            ContainerKind::Graph => "@graph",
            ContainerKind::Id => "@id",
            ContainerKind::Index => "@index",
            ContainerKind::Language => "@language",
            ContainerKind::List => "@list",
            ContainerKind::SetKind => "@set",
            ContainerKind::Type => "@type",
        }
    }

    /// Parses a container kind.
    pub fn try_from_str(s: &str) -> (r: Option<ContainerKind>)
        ensures
            r == container_kind_of(s@),
    {
        if str_eq(s, "@graph") { Some(ContainerKind::Graph) }
        else if str_eq(s, "@id") { Some(ContainerKind::Id) }
        else if str_eq(s, "@index") { Some(ContainerKind::Index) }
        else if str_eq(s, "@language") { Some(ContainerKind::Language) }
        else if str_eq(s, "@list") { Some(ContainerKind::List) }
        else if str_eq(s, "@set") { Some(ContainerKind::SetKind) }
        else if str_eq(s, "@type") { Some(ContainerKind::Type) }
        else { None }
    }
}

} // verus!

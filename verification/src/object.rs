//! Reading the pieces of an expanded JSON-LD document: identifiers and
//! language-tagged strings, and the errors met on the way.
use vstd::prelude::*;
use crate::id::{Reference, ReferenceV};
use crate::iri::reference_of;
use crate::json::{Json, JsonV, entries_view};
use crate::lang_string::{LangString, LangStringV};
use crate::syntax::Direction;

verus! {

/// The kind of a JSON value.
#[derive(Clone, Copy, Debug, PartialEq, Eq, Structural, Hash)]
pub enum Kind {
    Null,
    Boolean,
    Number,
    String,
    Array,
    Object,
}

/// The kind of a JSON value.
pub open spec fn json_kind(j: JsonV) -> Kind {
    match j {
        JsonV::Null => Kind::Null,
        JsonV::Boolean(_) => Kind::Boolean,
        JsonV::Number(_) => Kind::Number,
        JsonV::String(_) => Kind::String,
        JsonV::Array(_) => Kind::Array,
        JsonV::Object(_) => Kind::Object,
    }
}

impl Json {
    /// The kind of this value.
    pub fn kind(&self) -> (r: Kind)
        ensures
            r == json_kind(self@),
    {
        match self {
            Json::Null => Kind::Null,
            Json::Boolean(_) => Kind::Boolean,
            Json::Number(_) => Kind::Number,
            Json::String(_) => Kind::String,
            Json::Array(_) => Kind::Array,
            Json::Object(_) => Kind::Object,
        }
    }
}

/// Why a JSON value is not a valid expanded JSON-LD fragment.
#[derive(Clone, Debug, PartialEq, Eq)]
pub enum InvalidExpandedJson {
    InvalidObject,
    InvalidList,
    InvalidIndex,
    InvalidId,
    InvalidValueType,
    InvalidLiteral,
    InvalidLanguage,
    InvalidDirection,
    NotExpanded,
    UnexpectedEntry,
    /// The key occurs twice in an object.
    DuplicateKey(String),
    /// A value of the first kind was found where one of the second was expected.
    Unexpected(Kind, Kind),
}

/// Mathematical form of [`InvalidExpandedJson`].
pub enum InvalidExpandedJsonV {
    InvalidObject,
    InvalidList,
    InvalidIndex,
    InvalidId,
    InvalidValueType,
    InvalidLiteral,
    InvalidLanguage,
    InvalidDirection,
    NotExpanded,
    UnexpectedEntry,
    DuplicateKey(Seq<char>),
    Unexpected(Kind, Kind),
}

impl View for InvalidExpandedJson {
    type V = InvalidExpandedJsonV;

    open spec fn view(&self) -> InvalidExpandedJsonV {
        match self {
            InvalidExpandedJson::InvalidObject => InvalidExpandedJsonV::InvalidObject,
            InvalidExpandedJson::InvalidList => InvalidExpandedJsonV::InvalidList,
            InvalidExpandedJson::InvalidIndex => InvalidExpandedJsonV::InvalidIndex,
            InvalidExpandedJson::InvalidId => InvalidExpandedJsonV::InvalidId,
            InvalidExpandedJson::InvalidValueType => InvalidExpandedJsonV::InvalidValueType,
            InvalidExpandedJson::InvalidLiteral => InvalidExpandedJsonV::InvalidLiteral,
            InvalidExpandedJson::InvalidLanguage => InvalidExpandedJsonV::InvalidLanguage,
            InvalidExpandedJson::InvalidDirection => InvalidExpandedJsonV::InvalidDirection,
            InvalidExpandedJson::NotExpanded => InvalidExpandedJsonV::NotExpanded,
            InvalidExpandedJson::UnexpectedEntry => InvalidExpandedJsonV::UnexpectedEntry,
            InvalidExpandedJson::DuplicateKey(k) => InvalidExpandedJsonV::DuplicateKey(k@),
            InvalidExpandedJson::Unexpected(a, b) => InvalidExpandedJsonV::Unexpected(*a, *b),
        }
    }
}

/// The identifier that an expanded JSON value denotes: a string gives the
/// reference it denotes, anything else is no identifier.
pub open spec fn id_from_json(value: JsonV) -> Result<ReferenceV, InvalidExpandedJsonV> {
    match value {
        JsonV::String(s) => Ok(reference_of(s)),
        _ => Err(InvalidExpandedJsonV::InvalidId),
    }
}

impl Reference {
    /// Reads an identifier of an expanded document (see [`id_from_json`]).
    pub fn try_from_json_in(value: Json) -> (r: Result<Reference, InvalidExpandedJson>)
        ensures
            match r {
                Ok(id) => id_from_json(value@) == Ok::<ReferenceV, InvalidExpandedJsonV>(id@),
                Err(e) => id_from_json(value@) == Err::<ReferenceV, InvalidExpandedJsonV>(e@),
            },
    {
        match value {
            Json::String(s) => Ok(Reference::from_string(s)),
            _ => Err(InvalidExpandedJson::InvalidId),
        }
    }
}

/// The language string that a value object gives, from the value of its
/// `@value`, `@language` and `@direction` entries and the entries left:
/// the value and the language must be strings, the direction `"ltr"` or
/// `"rtl"`, and no other entry may be left.
pub open spec fn lang_string_from_json(
    object: Seq<(Seq<char>, JsonV)>,
    value: JsonV,
    language: Option<JsonV>,
    direction: Option<JsonV>,
) -> Result<LangStringV, InvalidExpandedJsonV> {
    match value {
        JsonV::String(data) => {
            match language {
                Some(l) if !(l is String) => Err(InvalidExpandedJsonV::Unexpected(json_kind(l), Kind::String)),
                _ => match direction {
                    Some(d) if !(d is String) => Err(InvalidExpandedJsonV::Unexpected(json_kind(d), Kind::String)),
                    Some(JsonV::String(d)) if d != "ltr"@ && d != "rtl"@ => Err(InvalidExpandedJsonV::InvalidDirection),
                    _ => if object.len() > 0 {
                        Err(InvalidExpandedJsonV::UnexpectedEntry)
                    } else {
                        Ok(LangStringV {
                            data,
                            language: match language {
                                Some(JsonV::String(l)) => Some(l),
                                _ => None,
                            },
                            direction: match direction {
                                Some(JsonV::String(d)) => if d == "ltr"@ { Some(Direction::Ltr) } else { Some(Direction::Rtl) },
                                _ => None,
                            },
                        })
                    },
                },
            }
        },
        _ => Err(InvalidExpandedJsonV::Unexpected(json_kind(value), Kind::String)),
    }
}

impl LangString {
    /// Reads the language string of a value object (see
    /// [`lang_string_from_json`]), given the value of its `@value`,
    /// `@language` and `@direction` entries and the entries left. A string
    /// value with neither a language nor a direction, and no entry left, is
    /// no language string and is not accepted here.
    pub fn try_from_json(
        object: Vec<(String, Json)>,
        value: Json,
        language: Option<Json>,
        direction: Option<Json>,
    ) -> (r: Result<LangString, InvalidExpandedJson>)
        requires
            !(value@ is String && language is None && direction is None && object@.len() == 0),
        ensures
            match r {
                Ok(s) => lang_string_from_json(entries_view(object@), value@, opt_json(language), opt_json(direction))
                    == Ok::<LangStringV, InvalidExpandedJsonV>(s@),
                Err(e) => lang_string_from_json(entries_view(object@), value@, opt_json(language), opt_json(direction))
                    == Err::<LangStringV, InvalidExpandedJsonV>(e@),
            },
    {
        let data = match value {
            Json::String(s) => s,
            v => {
                return Err(InvalidExpandedJson::Unexpected(v.kind(), Kind::String));
            },
        };
        let language = match language {
            Some(Json::String(l)) => Some(l),
            Some(v) => {
                return Err(InvalidExpandedJson::Unexpected(v.kind(), Kind::String));
            },
            None => None,
        };
        let direction = match direction {
            Some(Json::String(d)) => match Direction::try_from_str(d.as_str()) {
                Some(dir) => Some(dir),
                None => {
                    return Err(InvalidExpandedJson::InvalidDirection);
                },
            },
            Some(v) => {
                return Err(InvalidExpandedJson::Unexpected(v.kind(), Kind::String));
            },
            None => None,
        };
        if object.len() > 0 {
            proof {
                crate::json::lemma_entries_view(object@);
            }
            return Err(InvalidExpandedJson::UnexpectedEntry);
        }
        proof {
            crate::json::lemma_entries_view(object@);
        }
        match LangString::new(data, language, direction) {
            Ok(s) => Ok(s),
            // Not reached: here the string has a language or a direction.
            Err(_) => Err(InvalidExpandedJson::UnexpectedEntry),
        }
    }
}

/// The view of an optional JSON value.
pub open spec fn opt_json(j: Option<Json>) -> Option<JsonV> {
    match j {
        Some(v) => Some(v@),
        None => None,
    }
}

} // verus!

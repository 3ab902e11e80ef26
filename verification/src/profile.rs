//! Profiles of JSON-LD documents and RDF direction encodings.
use vstd::prelude::*;
use crate::text::{str_eq, to_string};

verus! {

/// Standard `profile` parameter values defined for `application/ld+json`.
#[derive(Debug, Clone, Copy, PartialEq, Eq, Structural, Hash)]
pub enum StandardProfile {
    /// Expanded JSON-LD document form.
    Expanded,
    /// Compacted JSON-LD document form.
    Compacted,
    /// JSON-LD context document.
    Context,
    /// Flattened JSON-LD document form.
    Flattened,
    /// Framed JSON-LD document.
    Framed,
}

/// The IRI of a standard profile.
pub open spec fn standard_profile_iri(p: StandardProfile) -> Seq<char> {
    match p {
        StandardProfile::Expanded => "http://www.w3.org/ns/json-ld#expanded"@,
        StandardProfile::Compacted => "http://www.w3.org/ns/json-ld#compacted"@,
        StandardProfile::Context => "http://www.w3.org/ns/json-ld#context"@,
        StandardProfile::Flattened => "http://www.w3.org/ns/json-ld#flattened"@,
        StandardProfile::Framed => "http://www.w3.org/ns/json-ld#framed"@,
    }
}

/// The standard profile whose IRI is `iri`, if any.
pub open spec fn standard_profile_of(iri: Seq<char>) -> Option<StandardProfile> {
    if iri == "http://www.w3.org/ns/json-ld#expanded"@ {
        Some(StandardProfile::Expanded)
    } else if iri == "http://www.w3.org/ns/json-ld#compacted"@ {
        Some(StandardProfile::Compacted)
    } else if iri == "http://www.w3.org/ns/json-ld#context"@ {
        Some(StandardProfile::Context)
    } else if iri == "http://www.w3.org/ns/json-ld#flattened"@ {
        Some(StandardProfile::Flattened)
    } else if iri == "http://www.w3.org/ns/json-ld#framed"@ {
        Some(StandardProfile::Framed)
    } else {
        None
    }
}

impl StandardProfile {
    /// The standard profile identified by `iri`, if any.
    pub fn from_iri(iri: &str) -> (r: Option<Self>)
        ensures
            r == standard_profile_of(iri@),
    {
        if str_eq(iri, "http://www.w3.org/ns/json-ld#expanded") {
            Some(Self::Expanded)
        } else if str_eq(iri, "http://www.w3.org/ns/json-ld#compacted") {
            Some(Self::Compacted)
        } else if str_eq(iri, "http://www.w3.org/ns/json-ld#context") {
            Some(Self::Context)
        } else if str_eq(iri, "http://www.w3.org/ns/json-ld#flattened") {
            Some(Self::Flattened)
        } else if str_eq(iri, "http://www.w3.org/ns/json-ld#framed") {
            Some(Self::Framed)
        } else {
            None
        }
    }

    /// The IRI of this profile.
    pub fn iri(&self) -> (r: &'static str)
        ensures
            r@ == standard_profile_iri(*self),
    {
        match self {
            Self::Expanded => "http://www.w3.org/ns/json-ld#expanded",
            Self::Compacted => "http://www.w3.org/ns/json-ld#compacted",
            Self::Context => "http://www.w3.org/ns/json-ld#context",
            Self::Flattened => "http://www.w3.org/ns/json-ld#flattened",
            Self::Framed => "http://www.w3.org/ns/json-ld#framed",
        }
    }
}

/// Value of the `profile` parameter: a standard profile, or any other IRI.
#[derive(Debug, Clone, PartialEq, Eq, Hash)]
pub enum Profile {
    Standard(StandardProfile),
    Custom(String),
}

impl Profile {
    /// The profile identified by `iri`.
    pub fn new(iri: &str) -> (r: Self)
        ensures
            standard_profile_of(iri@) matches Some(p) ==> r == Profile::Standard(p),
            standard_profile_of(iri@) is None ==> (r matches Profile::Custom(s) && s@ == iri@),
    {
        match StandardProfile::from_iri(iri) {
            Some(p) => Profile::Standard(p),
            None => Profile::Custom(to_string(iri)),
        }
    }

    /// The IRI of this profile.
    pub fn iri(&self) -> (r: &str)
        ensures
            r@ == (match self {
                Profile::Standard(p) => standard_profile_iri(*p),
                Profile::Custom(s) => s@,
            }),
    {
        match self {
            Profile::Standard(s) => s.iri(),
            Profile::Custom(c) => c.as_str(),
        }
    }
}

/// How the RDF serializer encodes base directions.
#[derive(Clone, Copy, PartialEq, Eq, Structural, Hash, Debug)]
pub enum RdfDirection {
    /// Encode the direction in the datatype IRI, under the
    /// `https://www.w3.org/ns/i18n#` prefix.
    I18nDatatype,
    /// Encode the direction using a compound literal value.
    CompoundLiteral,
}

/// Raised when parsing an unknown RDF direction name.
#[derive(Debug, Clone)]
pub struct InvalidRdfDirection(pub String);

impl RdfDirection {
    /// Parses `"i18n-datatype"` or `"compound-literal"`.
    pub fn from_str(s: &str) -> (r: Result<Self, InvalidRdfDirection>)
        ensures
            s@ == "i18n-datatype"@ ==> r == Ok::<RdfDirection, InvalidRdfDirection>(RdfDirection::I18nDatatype),
            s@ != "i18n-datatype"@ && s@ == "compound-literal"@ ==> r == Ok::<RdfDirection, InvalidRdfDirection>(RdfDirection::CompoundLiteral),
            s@ != "i18n-datatype"@ && s@ != "compound-literal"@ ==> (r matches Err(e) && e.0@ == s@),
    {
        if str_eq(s, "i18n-datatype") {
            Ok(Self::I18nDatatype)
        } else if str_eq(s, "compound-literal") {
            Ok(Self::CompoundLiteral)
        } else {
            Err(InvalidRdfDirection(to_string(s)))
        }
    }
}

} // verus!

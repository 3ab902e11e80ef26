//! Language-tagged strings.
use vstd::prelude::*;
use crate::syntax::Direction;

verus! {

/// A string tagged with a language, a reading direction, or both.
#[derive(Debug)]
pub struct LangString {
    data: String,
    language: Option<String>,
    direction: Option<Direction>,
}

/// Raised when a language string would have neither language nor direction.
#[derive(Clone, Copy, Debug)]
pub struct InvalidLangString;

/// Mathematical form of a language string: its text, language and direction.
pub struct LangStringV {
    pub data: Seq<char>,
    pub language: Option<Seq<char>>,
    pub direction: Option<Direction>,
}

impl View for LangString {
    type V = LangStringV;

    closed spec fn view(&self) -> LangStringV {
        LangStringV {
            data: self.data@,
            language: match self.language {
                Some(l) => Some(l@),
                None => None,
            },
            direction: self.direction,
        }
    }
}

/// A language string has a language or a direction.
pub open spec fn lang_string_valid(v: LangStringV) -> bool {
    v.language is Some || v.direction is Some
}

impl LangString {
    /// Creates a language string; gives the text back when neither a
    /// language nor a direction is given.
    pub fn new(data: String, language: Option<String>, direction: Option<Direction>) -> (r: Result<LangString, String>)
        ensures
            (language is Some || direction is Some) ==> (r matches Ok(s) && s@ == (LangStringV {
                data: data@,
                language: match language { Some(l) => Some(l@), None => None },
                direction,
            })),
            !(language is Some || direction is Some) ==> (r matches Err(d) && d@ == data@),
    {
        if language.is_some() || direction.is_some() {
            Ok(LangString { data, language, direction })
        } else {
            Err(data)
        }
    }

    /// The text, language and direction.
    pub fn into_parts(self) -> (r: (String, Option<String>, Option<Direction>))
        ensures
            r.0@ == self@.data,
            match r.1 { Some(l) => Some(l@), None => None } == self@.language,
            r.2 == self@.direction,
    {
        (self.data, self.language, self.direction)
    }

    /// The text.
    pub fn as_str(&self) -> (r: &str)
        ensures
            r@ == self@.data,
    {
        self.data.as_str()
    }

    /// The language, if any.
    pub fn language(&self) -> (r: Option<&String>)
        ensures
            match r { Some(l) => Some(l@), None => None } == self@.language,
    {
        self.language.as_ref()
    }

    /// The direction, if any.
    pub fn direction(&self) -> (r: Option<Direction>)
        ensures
            r == self@.direction,
    {
        self.direction
    }

    /// Sets the language; fails, leaving the string as it is, when it would
    /// have neither language nor direction.
    pub fn set_language(&mut self, language: Option<String>) -> (r: Result<(), InvalidLangString>)
        ensures
            r is Ok <==> (old(self)@.direction is Some || language is Some),
            r is Ok ==> final(self)@ == (LangStringV { language: match language { Some(l) => Some(l@), None => None }, ..old(self)@ }),
            r is Err ==> final(self)@ == old(self)@,
    {
        if self.direction.is_some() || language.is_some() {
            self.language = language;
            Ok(())
        } else {
            Err(InvalidLangString)
        }
    }

    /// Sets the direction; fails, leaving the string as it is, when it would
    /// have neither language nor direction.
    pub fn set_direction(&mut self, direction: Option<Direction>) -> (r: Result<(), InvalidLangString>)
        ensures
            r is Ok <==> (direction is Some || old(self)@.language is Some),
            r is Ok ==> final(self)@ == (LangStringV { direction, ..old(self)@ }),
            r is Err ==> final(self)@ == old(self)@,
    {
        if direction.is_some() || self.language.is_some() {
            self.direction = direction;
            Ok(())
        } else {
            Err(InvalidLangString)
        }
    }

    /// Sets both the language and the direction; fails, leaving the string
    /// as it is, when both are absent.
    pub fn set(&mut self, language: Option<String>, direction: Option<Direction>) -> (r: Result<(), InvalidLangString>)
        ensures
            r is Ok <==> (direction is Some || language is Some),
            r is Ok ==> final(self)@ == (LangStringV {
                language: match language { Some(l) => Some(l@), None => None },
                direction,
                ..old(self)@
            }),
            r is Err ==> final(self)@ == old(self)@,
    {
        if direction.is_some() || language.is_some() {
            self.language = language;
            self.direction = direction;
            Ok(())
        } else {
            Err(InvalidLangString)
        }
    }
}

/// Every operation keeps a language string valid: a valid string stays
/// valid through `set_language`, `set_direction` and `set`, whether they
/// succeed or fail, since a change that would leave neither a language nor
/// a direction is refused.
pub proof fn lemma_lang_string_stays_valid(s: LangStringV, language: Option<Seq<char>>, direction: Option<Direction>)
    requires
        lang_string_valid(s),
    ensures
        (s.direction is Some || language is Some) ==> lang_string_valid(LangStringV { language, ..s }),
        (direction is Some || s.language is Some) ==> lang_string_valid(LangStringV { direction, ..s }),
        (direction is Some || language is Some) ==> lang_string_valid(LangStringV { language, direction, ..s }),
{
}

} // verus!

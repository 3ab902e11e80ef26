//! Error codes, processing errors and warnings.
use vstd::prelude::*;
use crate::text::concat;

verus! {

/// JSON-LD error codes.
#[derive(Clone, Copy, PartialEq, Eq, Structural, Debug, Hash)]
pub enum ErrorCode {
    CollidingKeywords,
    ConflictingIndexes,
    ContextOverflow,
    CyclicIriMapping,
    InvalidIdValue,
    InvalidImportValue,
    InvalidIncludedValue,
    InvalidIndexValue,
    InvalidNestValue,
    InvalidPrefixValue,
    InvalidPropagateValue,
    InvalidProtectedValue,
    InvalidReverseValue,
    InvalidVersionValue,
    InvalidBaseDirection,
    InvalidBaseIri,
    InvalidContainerMapping,
    InvalidContextEntry,
    InvalidContextNullification,
    InvalidDefaultLanguage,
    InvalidIriMapping,
    InvalidJsonLiteral,
    InvalidKeywordAlias,
    InvalidLanguageMapValue,
    InvalidLanguageMapping,
    InvalidLanguageTaggedString,
    InvalidLanguageTaggedValue,
    InvalidLocalContext,
    InvalidRemoteContext,
    InvalidReverseProperty,
    InvalidReversePropertyMap,
    InvalidReversePropertyValue,
    InvalidScopedContext,
    InvalidScriptElement,
    InvalidSetOrListObject,
    InvalidTermDefinition,
    InvalidTypeMapping,
    InvalidTypeValue,
    InvalidTypedValue,
    InvalidValueObject,
    InvalidValueObjectValue,
    InvalidVocabMapping,
    IriConfusedWithPrefix,
    KeywordRedefinition,
    LoadingDocumentFailed,
    LoadingRemoteContextFailed,
    MultipleContextLinkHeaders,
    ProcessingModeConflict,
    ProtectedTermRedefinition,
}

/// The text of an error code, as written in the JSON-LD API specification.
pub open spec fn error_code_text(c: ErrorCode) -> Seq<char> {
    match c {
        ErrorCode::CollidingKeywords => "colliding keywords"@,
        ErrorCode::ConflictingIndexes => "conflicting indexes"@,
        ErrorCode::ContextOverflow => "context overflow"@,
        ErrorCode::CyclicIriMapping => "cyclic IRI mapping"@,
        ErrorCode::InvalidIdValue => "invalid @id value"@,
        ErrorCode::InvalidImportValue => "invalid @import value"@,
        ErrorCode::InvalidIncludedValue => "invalid @included value"@,
        ErrorCode::InvalidIndexValue => "invalid @index value"@,
        ErrorCode::InvalidNestValue => "invalid @nest value"@,
        ErrorCode::InvalidPrefixValue => "invalid @prefix value"@,
        ErrorCode::InvalidPropagateValue => "invalid @propagate value"@,
        ErrorCode::InvalidProtectedValue => "invalid @protected value"@,
        ErrorCode::InvalidReverseValue => "invalid @reverse value"@,
        ErrorCode::InvalidVersionValue => "invalid @version value"@,
        ErrorCode::InvalidBaseDirection => "invalid base direction"@,
        ErrorCode::InvalidBaseIri => "invalid base IRI"@,
        ErrorCode::InvalidContainerMapping => "invalid container mapping"@,
        ErrorCode::InvalidContextEntry => "invalid context entry"@,
        ErrorCode::InvalidContextNullification => "invalid context nullification"@,
        ErrorCode::InvalidDefaultLanguage => "invalid default language"@,
        ErrorCode::InvalidIriMapping => "invalid IRI mapping"@,
        ErrorCode::InvalidJsonLiteral => "invalid JSON literal"@,
        ErrorCode::InvalidKeywordAlias => "invalid keyword alias"@,
        ErrorCode::InvalidLanguageMapValue => "invalid language map value"@,
        ErrorCode::InvalidLanguageMapping => "invalid language mapping"@,
        ErrorCode::InvalidLanguageTaggedString => "invalid language-tagged string"@,
        ErrorCode::InvalidLanguageTaggedValue => "invalid language-tagged value"@,
        ErrorCode::InvalidLocalContext => "invalid local context"@,
        ErrorCode::InvalidRemoteContext => "invalid remote context"@,
        ErrorCode::InvalidReverseProperty => "invalid reverse property"@,
        ErrorCode::InvalidReversePropertyMap => "invalid reverse property map"@,
        ErrorCode::InvalidReversePropertyValue => "invalid reverse property value"@,
        ErrorCode::InvalidScopedContext => "invalid scoped context"@,
        ErrorCode::InvalidScriptElement => "invalid script element"@,
        ErrorCode::InvalidSetOrListObject => "invalid set or list object"@,
        ErrorCode::InvalidTermDefinition => "invalid term definition"@,
        ErrorCode::InvalidTypeMapping => "invalid type mapping"@,
        ErrorCode::InvalidTypeValue => "invalid type value"@,
        ErrorCode::InvalidTypedValue => "invalid typed value"@,
        ErrorCode::InvalidValueObject => "invalid value object"@,
        ErrorCode::InvalidValueObjectValue => "invalid value object value"@,
        ErrorCode::InvalidVocabMapping => "invalid vocab mapping"@,
        ErrorCode::IriConfusedWithPrefix => "IRI confused with prefix"@,
        ErrorCode::KeywordRedefinition => "keyword redefinition"@,
        ErrorCode::LoadingDocumentFailed => "loading document failed"@,
        ErrorCode::LoadingRemoteContextFailed => "loading remote context failed"@,
        ErrorCode::MultipleContextLinkHeaders => "multiple context link headers"@,
        ErrorCode::ProcessingModeConflict => "processing mode conflict"@,
        ErrorCode::ProtectedTermRedefinition => "protected term redefinition"@,
    }
}

impl ErrorCode {
    /// The text of the error code.
    pub fn as_str(&self) -> (r: &'static str)
        ensures
            r@ == error_code_text(*self),
    {
        match self {
            ErrorCode::CollidingKeywords => "colliding keywords",
            ErrorCode::ConflictingIndexes => "conflicting indexes",
            ErrorCode::ContextOverflow => "context overflow",
            ErrorCode::CyclicIriMapping => "cyclic IRI mapping",
            ErrorCode::InvalidIdValue => "invalid @id value",
            ErrorCode::InvalidImportValue => "invalid @import value",
            ErrorCode::InvalidIncludedValue => "invalid @included value",
            ErrorCode::InvalidIndexValue => "invalid @index value",
            ErrorCode::InvalidNestValue => "invalid @nest value",
            ErrorCode::InvalidPrefixValue => "invalid @prefix value",
            ErrorCode::InvalidPropagateValue => "invalid @propagate value",
            ErrorCode::InvalidProtectedValue => "invalid @protected value",
            ErrorCode::InvalidReverseValue => "invalid @reverse value",
            ErrorCode::InvalidVersionValue => "invalid @version value",
            ErrorCode::InvalidBaseDirection => "invalid base direction",
            ErrorCode::InvalidBaseIri => "invalid base IRI",
            ErrorCode::InvalidContainerMapping => "invalid container mapping",
            ErrorCode::InvalidContextEntry => "invalid context entry",
            ErrorCode::InvalidContextNullification => "invalid context nullification",
            ErrorCode::InvalidDefaultLanguage => "invalid default language",
            ErrorCode::InvalidIriMapping => "invalid IRI mapping",
            ErrorCode::InvalidJsonLiteral => "invalid JSON literal",
            ErrorCode::InvalidKeywordAlias => "invalid keyword alias",
            ErrorCode::InvalidLanguageMapValue => "invalid language map value",
            ErrorCode::InvalidLanguageMapping => "invalid language mapping",
            ErrorCode::InvalidLanguageTaggedString => "invalid language-tagged string",
            ErrorCode::InvalidLanguageTaggedValue => "invalid language-tagged value",
            ErrorCode::InvalidLocalContext => "invalid local context",
            ErrorCode::InvalidRemoteContext => "invalid remote context",
            ErrorCode::InvalidReverseProperty => "invalid reverse property",
            ErrorCode::InvalidReversePropertyMap => "invalid reverse property map",
            ErrorCode::InvalidReversePropertyValue => "invalid reverse property value",
            ErrorCode::InvalidScopedContext => "invalid scoped context",
            ErrorCode::InvalidScriptElement => "invalid script element",
            ErrorCode::InvalidSetOrListObject => "invalid set or list object",
            ErrorCode::InvalidTermDefinition => "invalid term definition",
            ErrorCode::InvalidTypeMapping => "invalid type mapping",
            ErrorCode::InvalidTypeValue => "invalid type value",
            ErrorCode::InvalidTypedValue => "invalid typed value",
            ErrorCode::InvalidValueObject => "invalid value object",
            ErrorCode::InvalidValueObjectValue => "invalid value object value",
            ErrorCode::InvalidVocabMapping => "invalid vocab mapping",
            ErrorCode::IriConfusedWithPrefix => "IRI confused with prefix",
            ErrorCode::KeywordRedefinition => "keyword redefinition",
            ErrorCode::LoadingDocumentFailed => "loading document failed",
            ErrorCode::LoadingRemoteContextFailed => "loading remote context failed",
            ErrorCode::MultipleContextLinkHeaders => "multiple context link headers",
            ErrorCode::ProcessingModeConflict => "processing mode conflict",
            ErrorCode::ProtectedTermRedefinition => "protected term redefinition",
        }
    }
}

/// Errors that can happen during context processing.
///
/// `E` is the error type of the context loader.
#[derive(Debug)]
pub enum Error<E> {
    InvalidContextNullification,
    LoadingDocumentFailed,
    ProcessingModeConflict,
    InvalidContextEntry,
    InvalidImportValue,
    InvalidRemoteContext,
    InvalidBaseIri,
    InvalidVocabMapping,
    CyclicIriMapping,
    InvalidTermDefinition,
    KeywordRedefinition,
    InvalidProtectedValue,
    InvalidTypeMapping,
    InvalidReverseProperty,
    InvalidIriMapping,
    InvalidKeywordAlias,
    InvalidContainerMapping,
    InvalidScopedContext,
    ProtectedTermRedefinition,
    InvalidVersionValue,
    InvalidPropagateValue,
    InvalidBaseDirection,
    InvalidDefaultLanguage,
    InvalidLocalContext,
    InvalidLanguageMapping,
    InvalidNestValue,
    InvalidPrefixValue,
    ContextOverflow,
    ContextLoadingFailed(E),
}

/// The error code of a context processing error.
pub open spec fn error_code<E>(e: Error<E>) -> ErrorCode {
    match e {
        Error::InvalidContextNullification => ErrorCode::InvalidContextNullification,
        Error::LoadingDocumentFailed => ErrorCode::LoadingDocumentFailed,
        Error::ProcessingModeConflict => ErrorCode::ProcessingModeConflict,
        Error::InvalidContextEntry => ErrorCode::InvalidContextEntry,
        Error::InvalidImportValue => ErrorCode::InvalidImportValue,
        Error::InvalidRemoteContext => ErrorCode::InvalidRemoteContext,
        Error::InvalidBaseIri => ErrorCode::InvalidBaseIri,
        Error::InvalidVocabMapping => ErrorCode::InvalidVocabMapping,
        Error::CyclicIriMapping => ErrorCode::CyclicIriMapping,
        Error::InvalidTermDefinition => ErrorCode::InvalidTermDefinition,
        Error::KeywordRedefinition => ErrorCode::KeywordRedefinition,
        Error::InvalidProtectedValue => ErrorCode::InvalidPropagateValue,
        Error::InvalidTypeMapping => ErrorCode::InvalidTypeMapping,
        Error::InvalidReverseProperty => ErrorCode::InvalidReverseProperty,
        Error::InvalidIriMapping => ErrorCode::InvalidIriMapping,
        Error::InvalidKeywordAlias => ErrorCode::InvalidKeywordAlias,
        Error::InvalidContainerMapping => ErrorCode::InvalidContainerMapping,
        Error::InvalidScopedContext => ErrorCode::InvalidScopedContext,
        Error::ProtectedTermRedefinition => ErrorCode::ProtectedTermRedefinition,
        Error::InvalidVersionValue => ErrorCode::InvalidVersionValue,
        Error::InvalidPropagateValue => ErrorCode::InvalidPropagateValue,
        Error::InvalidBaseDirection => ErrorCode::InvalidBaseDirection,
        Error::InvalidDefaultLanguage => ErrorCode::InvalidDefaultLanguage,
        Error::InvalidLocalContext => ErrorCode::InvalidLocalContext,
        Error::InvalidLanguageMapping => ErrorCode::InvalidLanguageMapping,
        Error::InvalidNestValue => ErrorCode::InvalidNestValue,
        Error::InvalidPrefixValue => ErrorCode::InvalidPrefixValue,
        Error::ContextOverflow => ErrorCode::ContextOverflow,
        Error::ContextLoadingFailed(_) => ErrorCode::LoadingRemoteContextFailed,
    }
}

/// The message of a context processing error, without the loader error.
pub open spec fn error_message<E>(e: Error<E>) -> Seq<char> {
    match e {
        Error::InvalidContextNullification => "invalid context nullification"@,
        Error::LoadingDocumentFailed => "loading document failed"@,
        Error::ProcessingModeConflict => "processing mode conflict"@,
        Error::InvalidContextEntry => "invalid context entry"@,
        Error::InvalidImportValue => "invalid import value"@,
        Error::InvalidRemoteContext => "invalid remote context"@,
        Error::InvalidBaseIri => "invalid base IRI"@,
        Error::InvalidVocabMapping => "invalid vocabulary mapping"@,
        Error::CyclicIriMapping => "cyclic IRI mapping"@,
        Error::InvalidTermDefinition => "invalid term definition"@,
        Error::KeywordRedefinition => "keyword redefinition"@,
        Error::InvalidProtectedValue => "invalid protected value"@,
        Error::InvalidTypeMapping => "invalid type mapping"@,
        Error::InvalidReverseProperty => "invalid reverse property"@,
        Error::InvalidIriMapping => "invalid IRI mapping"@,
        Error::InvalidKeywordAlias => "invalid keyword alias"@,
        Error::InvalidContainerMapping => "invalid container mapping"@,
        Error::InvalidScopedContext => "invalid scoped context"@,
        Error::ProtectedTermRedefinition => "protected term redefinition"@,
        Error::InvalidVersionValue => "invalid @version value"@,
        Error::InvalidPropagateValue => "invalid @propagate value"@,
        Error::InvalidBaseDirection => "invalid base direction"@,
        Error::InvalidDefaultLanguage => "invalid default language"@,
        Error::InvalidLocalContext => "invalid local context"@,
        Error::InvalidLanguageMapping => "invalid language mapping"@,
        Error::InvalidNestValue => "invalid @nest value"@,
        Error::InvalidPrefixValue => "invalid @prefix value"@,
        Error::ContextOverflow => "context overflow"@,
        Error::ContextLoadingFailed(_) => "context loading failed"@,
    }
}

impl<E> Error<E> {
    /// The error code of this error.
    pub fn code(&self) -> (r: ErrorCode)
        ensures
            r == error_code(*self),
    {
        match self {
            Error::InvalidContextNullification => ErrorCode::InvalidContextNullification,
            Error::LoadingDocumentFailed => ErrorCode::LoadingDocumentFailed,
            Error::ProcessingModeConflict => ErrorCode::ProcessingModeConflict,
            Error::InvalidContextEntry => ErrorCode::InvalidContextEntry,
            Error::InvalidImportValue => ErrorCode::InvalidImportValue,
            Error::InvalidRemoteContext => ErrorCode::InvalidRemoteContext,
            Error::InvalidBaseIri => ErrorCode::InvalidBaseIri,
            Error::InvalidVocabMapping => ErrorCode::InvalidVocabMapping,
            Error::CyclicIriMapping => ErrorCode::CyclicIriMapping,
            Error::InvalidTermDefinition => ErrorCode::InvalidTermDefinition,
            Error::KeywordRedefinition => ErrorCode::KeywordRedefinition,
            Error::InvalidProtectedValue => ErrorCode::InvalidPropagateValue,
            Error::InvalidTypeMapping => ErrorCode::InvalidTypeMapping,
            Error::InvalidReverseProperty => ErrorCode::InvalidReverseProperty,
            Error::InvalidIriMapping => ErrorCode::InvalidIriMapping,
            Error::InvalidKeywordAlias => ErrorCode::InvalidKeywordAlias,
            Error::InvalidContainerMapping => ErrorCode::InvalidContainerMapping,
            Error::InvalidScopedContext => ErrorCode::InvalidScopedContext,
            Error::ProtectedTermRedefinition => ErrorCode::ProtectedTermRedefinition,
            Error::InvalidVersionValue => ErrorCode::InvalidVersionValue,
            Error::InvalidPropagateValue => ErrorCode::InvalidPropagateValue,
            Error::InvalidBaseDirection => ErrorCode::InvalidBaseDirection,
            Error::InvalidDefaultLanguage => ErrorCode::InvalidDefaultLanguage,
            Error::InvalidLocalContext => ErrorCode::InvalidLocalContext,
            Error::InvalidLanguageMapping => ErrorCode::InvalidLanguageMapping,
            Error::InvalidNestValue => ErrorCode::InvalidNestValue,
            Error::InvalidPrefixValue => ErrorCode::InvalidPrefixValue,
            Error::ContextOverflow => ErrorCode::ContextOverflow,
            Error::ContextLoadingFailed(_) => ErrorCode::LoadingRemoteContextFailed,
        }
    }


    /// The message of this error; the loader error is not included.
    pub fn message(&self) -> (r: &'static str)
        ensures
            r@ == error_message(*self),
    {
        match self {
            Error::InvalidContextNullification => "invalid context nullification",
            Error::LoadingDocumentFailed => "loading document failed",
            Error::ProcessingModeConflict => "processing mode conflict",
            Error::InvalidContextEntry => "invalid context entry",
            Error::InvalidImportValue => "invalid import value",
            Error::InvalidRemoteContext => "invalid remote context",
            Error::InvalidBaseIri => "invalid base IRI",
            Error::InvalidVocabMapping => "invalid vocabulary mapping",
            Error::CyclicIriMapping => "cyclic IRI mapping",
            Error::InvalidTermDefinition => "invalid term definition",
            Error::KeywordRedefinition => "keyword redefinition",
            Error::InvalidProtectedValue => "invalid protected value",
            Error::InvalidTypeMapping => "invalid type mapping",
            Error::InvalidReverseProperty => "invalid reverse property",
            Error::InvalidIriMapping => "invalid IRI mapping",
            Error::InvalidKeywordAlias => "invalid keyword alias",
            Error::InvalidContainerMapping => "invalid container mapping",
            Error::InvalidScopedContext => "invalid scoped context",
            Error::ProtectedTermRedefinition => "protected term redefinition",
            Error::InvalidVersionValue => "invalid @version value",
            Error::InvalidPropagateValue => "invalid @propagate value",
            Error::InvalidBaseDirection => "invalid base direction",
            Error::InvalidDefaultLanguage => "invalid default language",
            Error::InvalidLocalContext => "invalid local context",
            Error::InvalidLanguageMapping => "invalid language mapping",
            Error::InvalidNestValue => "invalid @nest value",
            Error::InvalidPrefixValue => "invalid @prefix value",
            Error::ContextOverflow => "context overflow",
            Error::ContextLoadingFailed(_) => "context loading failed",
        }
    }
}

/// Warnings that can be raised during context processing.
#[derive(Clone, Debug, PartialEq, Eq)]
pub enum Warning {
    KeywordLikeTerm(String),
    KeywordLikeValue(String),
    MalformedIri(String),
    MalformedLanguageTag(String),
}

/// Mathematical form of a warning: its kind and the offending text.
pub enum WarningV {
    KeywordLikeTerm(Seq<char>),
    KeywordLikeValue(Seq<char>),
    MalformedIri(Seq<char>),
    MalformedLanguageTag(Seq<char>),
}

impl View for Warning {
    type V = WarningV;

    open spec fn view(&self) -> WarningV {
        match self {
            Warning::KeywordLikeTerm(s) => WarningV::KeywordLikeTerm(s@),
            Warning::KeywordLikeValue(s) => WarningV::KeywordLikeValue(s@),
            Warning::MalformedIri(s) => WarningV::MalformedIri(s@),
            Warning::MalformedLanguageTag(s) => WarningV::MalformedLanguageTag(s@),
        }
    }
}

/// The message of a warning.
pub open spec fn warning_message(w: WarningV) -> Seq<char> {
    match w {
        WarningV::KeywordLikeTerm(s) => "keyword-like term `"@ + s + "`"@,
        WarningV::KeywordLikeValue(s) => "keyword-like value `"@ + s + "`"@,
        WarningV::MalformedIri(s) => "malformed IRI `"@ + s + "`"@,
        WarningV::MalformedLanguageTag(s) => "malformed language tag `"@ + s + "`"@,
    }
}

impl Warning {
    /// The message of this warning, such as ``keyword-like term `@foo` ``.
    pub fn message(&self) -> (r: String)
        ensures
            r@ == warning_message(self@),
    {
        let (head, s) = match self {
            Warning::KeywordLikeTerm(s) => ("keyword-like term `", s),
            Warning::KeywordLikeValue(s) => ("keyword-like value `", s),
            Warning::MalformedIri(s) => ("malformed IRI `", s),
            Warning::MalformedLanguageTag(s) => ("malformed language tag `", s),
        };
        let a = concat(head, s.as_str());
        concat(a.as_str(), "`")
    }
}

/// Malformed IRI found while expanding a value.
pub struct MalformedIri(pub String);

impl MalformedIri {
    /// The warning for this malformed IRI.
    pub fn into_warning(self) -> (r: Warning)
        ensures
            r@ == WarningV::MalformedIri(self.0@),
    {
        Warning::MalformedIri(self.0)
    }
}

/// Receiver of warnings.
pub trait WarningHandler {
    /// Handles one warning.
    fn handle(&mut self, warning: Warning);
}

impl WarningHandler for Vec<Warning> {
    fn handle(&mut self, warning: Warning) {
        self.push(warning)
    }
}

} // verus!

use json_ld::container::{Container, ContainerSyntax};
use json_ld::context::{Context, ModuloProtected, TermDefinition, Type};
use json_ld::error::{Error, ErrorCode, MalformedIri, Warning, WarningHandler};
use json_ld::generator::Blank;
use json_ld::id::{Reference, Term, ValidId};
use json_ld::iri::{contains_after_first, contains_between_boundaries, is_gen_delim, is_gen_delim_or_blank, split_compact_iri};
use json_ld::json::Json;
use json_ld::lang_string::LangString;
use json_ld::loader::{CannotLoad, ChainLoader, ContextStore};
use json_ld::loc::{Entry, Loc, Location};
use json_ld::multiset::{compare_unordered, Bag};
use json_ld::namespace::IndexNamespace;
use json_ld::nullable::Nullable;
use json_ld::number::is_one_point_one;
use json_ld::object::{InvalidExpandedJson, Kind};
use json_ld::processing::{expand_iri_simple, DefinedTerms, Options, ProcessingStack};
use json_ld::profile::{Profile, RdfDirection, StandardProfile};
use json_ld::syntax::{is_keyword, is_keyword_like, ContainerKind, Direction, Keyword, ProcessingMode};
use json_ld::value;

fn iri(x: &str) -> Term {
    Term::Ref(Reference::Id(x.to_string()))
}

fn defined(value: Term, prefix: bool) -> TermDefinition {
    let mut d = TermDefinition::new(false);
    d.value = Some(value);
    d.prefix = prefix;
    d
}

fn sample_context() -> Context {
    let mut c = Context::new(Some("http://example.org/base/".to_string()));
    c.set("ex", Some(defined(iri("http://example.org/"), true)));
    c.set("name", Some(defined(iri("http://xmlns.com/foaf/0.1/name"), false)));
    c.set("type", Some(defined(Term::Keyword(Keyword::Type), false)));
    c
}

#[test]
fn expand_keywords_and_keyword_like_values() {
    let c = sample_context();
    assert_eq!(expand_iri_simple(&c, "@id", false, true), (Term::Keyword(Keyword::Id), None));
    assert_eq!(expand_iri_simple(&c, "@foo", false, true), (Term::Null, Some(Warning::KeywordLikeValue("@foo".to_string()))));
}

#[test]
fn expand_defined_terms() {
    let c = sample_context();
    assert_eq!(expand_iri_simple(&c, "name", false, true).0, iri("http://xmlns.com/foaf/0.1/name"));
    assert_eq!(expand_iri_simple(&c, "type", false, false).0, Term::Keyword(Keyword::Type));
}

#[test]
fn expand_compact_iris_and_blank_ids() {
    let c = sample_context();
    assert_eq!(expand_iri_simple(&c, "ex:thing", false, true).0, iri("http://example.org/thing"));
    assert_eq!(expand_iri_simple(&c, "_:b0", false, true).0, Term::Ref(Reference::Blank("_:b0".to_string())));
    assert_eq!(expand_iri_simple(&c, "_:", false, true).0, Term::Ref(Reference::Invalid("_:".to_string())));
    assert_eq!(expand_iri_simple(&c, "http://other.org/x", false, true).0, iri("http://other.org/x"));
}

#[test]
fn expand_relative_references() {
    let c = sample_context();
    assert_eq!(expand_iri_simple(&c, "doc", true, false), (iri("http://example.org/base/doc"), None));
    let (t, w) = expand_iri_simple(&c, "doc", false, false);
    assert_eq!(t, Term::Ref(Reference::Invalid("doc".to_string())));
    assert_eq!(w, Some(Warning::MalformedIri("doc".to_string())));
}

#[test]
fn expand_with_vocabulary() {
    let mut c = sample_context();
    c.set_vocabulary(Some(iri("http://vocab.example/")));
    assert_eq!(expand_iri_simple(&c, "knows", false, true).0, iri("http://vocab.example/knows"));
    assert_eq!(expand_iri_simple(&c, "knows", true, false).0, iri("http://example.org/base/knows"));
}

#[test]
fn context_set_and_get() {
    let mut c = Context::new(None);
    assert!(c.is_empty());
    let previous = c.set("a", Some(defined(iri("http://a.example/"), false)));
    assert!(previous.is_none());
    assert_eq!(c.get("a").unwrap().value, Some(iri("http://a.example/")));
    let previous = c.set("a", Some(defined(iri("http://b.example/"), false)));
    assert_eq!(previous.unwrap().value, Some(iri("http://a.example/")));
    assert_eq!(c.len(), 1);
    let previous = c.set("a", None);
    assert_eq!(previous.unwrap().value, Some(iri("http://b.example/")));
    assert!(!c.contains_term("a"));
}

#[test]
fn context_settings_and_copies() {
    let mut c = sample_context();
    c.set_default_language(Some("en".to_string()));
    c.set_default_base_direction(Some(Direction::Ltr));
    c.set_base_iri(None);
    let copy = c.duplicate();
    assert_eq!(copy.default_language().map(|l| l.as_str()), Some("en"));
    assert_eq!(copy.default_base_direction(), Some(Direction::Ltr));
    assert_eq!(copy.base_iri(), None);
    assert_eq!(copy.original_base_url().map(|b| b.as_str()), Some("http://example.org/base/"));
    assert_eq!(copy.len(), 3);
    let mut d = Context::new(None);
    d.set_previous_context(copy);
    assert_eq!(d.previous_context().unwrap().len(), 3);
    assert!(!d.has_protected_items());
}

#[test]
fn definitions_modulo_protected() {
    let a = defined(iri("http://a.example/"), false);
    let mut b = defined(iri("http://a.example/"), false);
    b.protected = true;
    assert!(a.eq_modulo_protected(&b));
    assert!(ModuloProtected(&a).stripped_eq(&ModuloProtected(&b)));
    b.prefix = true;
    assert!(!a.eq_modulo_protected(&b));
    let copy = a.duplicate();
    assert!(copy.eq_modulo_protected(&a));
    assert_eq!(Type::try_from_term(Term::Keyword(Keyword::Vocab)), Some(Type::Vocab));
    assert_eq!(Type::try_from_term(Term::Keyword(Keyword::List)), None);
}

#[test]
fn options_builders() {
    let o = Options::default();
    assert_eq!(o.processing_mode, ProcessingMode::JsonLd1_1);
    assert!(!o.override_protected);
    assert!(o.propagate);
    assert!(o.with_override().override_protected);
    assert!(!o.with_override().with_no_override().override_protected);
    assert!(!o.without_propagation().propagate);
}

#[test]
fn processing_stack_detects_cycles() {
    let mut s = ProcessingStack::new();
    assert!(s.is_empty());
    assert!(s.push("http://a.example/"));
    assert!(s.push("http://b.example/"));
    assert!(!s.push("http://a.example/"));
    assert!(s.cycle("http://b.example/"));
    assert!(!s.cycle("http://c.example/"));
    let copy = s.duplicate();
    assert!(copy.cycle("http://a.example/"));
}

#[test]
fn iri_helpers() {
    assert!(is_gen_delim('#'));
    assert!(!is_gen_delim('a'));
    assert!(is_gen_delim_or_blank(&iri("http://example.org/")));
    assert!(!is_gen_delim_or_blank(&iri("http://example.org/a")));
    assert!(is_gen_delim_or_blank(&Term::Ref(Reference::Blank("_:b".to_string()))));
    assert!(contains_after_first("a:b", ':'));
    assert!(!contains_after_first(":b", ':'));
    assert!(!contains_after_first("ab", ':'));
    assert!(contains_between_boundaries("a:b", ':'));
    assert!(!contains_between_boundaries("ab:", ':'));
    assert!(!contains_between_boundaries(":ab", ':'));
    assert!(!contains_between_boundaries("aé", 'é'));
    assert!(contains_after_first(":a:b", ':'));
    assert!(contains_between_boundaries("a:b:", ':'));
    assert!(!contains_between_boundaries(":a:", ':'));
    assert!(contains_between_boundaries(":a::", ':'));
    assert!(!contains_between_boundaries("::", ':'));
    assert_eq!(split_compact_iri("ex:name"), Some(("ex", "name")));
    assert_eq!(split_compact_iri("_:b0"), None);
    assert_eq!(split_compact_iri("http://x"), None);
    assert_eq!(Reference::from_string("http://a.example/".to_string()), Reference::Id("http://a.example/".to_string()));
    assert_eq!(Reference::from_string("_:b1".to_string()), Reference::Blank("_:b1".to_string()));
    assert_eq!(Reference::from_string("nope".to_string()), Reference::Invalid("nope".to_string()));
    assert_eq!(Term::Keyword(Keyword::Base).as_str(), "@base");
    assert_eq!(Term::Null.as_str(), "");
}

#[test]
fn keywords() {
    assert!(is_keyword("@context"));
    assert!(!is_keyword("@foo"));
    assert!(is_keyword_like("@foo"));
    assert!(!is_keyword_like("@"));
    assert!(!is_keyword_like("@fo1"));
    assert_eq!(Keyword::try_from_str("@graph"), Some(Keyword::Graph));
    assert_eq!(Keyword::Graph.into_str(), "@graph");
    assert_eq!(Direction::try_from_str("ltr"), Some(Direction::Ltr));
    assert_eq!(ContainerKind::try_from_str("@set"), Some(ContainerKind::SetKind));
    assert_eq!(ProcessingMode::JsonLd1_0.into_str(), "json-ld-1.0");
}

#[test]
fn container_kinds_combine() {
    let mut c = Container::new();
    assert!(c.is_empty());
    assert!(c.add(ContainerKind::Graph));
    assert!(c.add(ContainerKind::Index));
    assert!(c.add(ContainerKind::SetKind));
    assert_eq!(c, Container::GraphIndexSet);
    assert_eq!(c.len(), 3);
    assert!(!c.add(ContainerKind::List));
    assert!(c.contains(ContainerKind::Index));
    assert_eq!(Container::from(&[ContainerKind::Id, ContainerKind::SetKind]), Ok(Container::IdSet));
    assert_eq!(Container::from(&[ContainerKind::List, ContainerKind::Id]), Err(ContainerKind::Id));
    assert_eq!(Container::from_kind(ContainerKind::Type).with(ContainerKind::SetKind), Some(Container::SetType));
    let syntax = ContainerSyntax::Many(vec![ContainerKind::Language, ContainerKind::SetKind]);
    assert_eq!(Container::from_syntax(Nullable::Value(&syntax)).ok(), Some(Container::LanguageSet));
    assert_eq!(Container::from_syntax(Nullable::Null).ok(), Some(Container::Empty));
    assert_eq!(Container::List.into_syntax(), Some(ContainerSyntax::One(ContainerKind::List)));
    assert_eq!(Container::Empty.into_syntax(), None);
}

#[test]
fn nullable_values() {
    let n: Nullable<u8> = Nullable::Null;
    assert!(n.is_null());
    assert_eq!(n.option(), None);
    let v = Nullable::Value(3u8);
    assert!(v.is_some());
    assert_eq!(v.unwrap(), 3);
    assert_eq!(v.option(), Some(3));
    assert_eq!(v.map(|x| x + 1), Nullable::Value(4));
}

#[test]
fn bags_compare_without_order() {
    let mut a: Bag<u8> = Bag::new();
    a.insert(1);
    a.insert(2);
    a.insert(1);
    let mut b: Bag<u8> = Bag::singleton(2);
    b.insert(1);
    assert!(!a.eq(&b));
    b.insert(1);
    assert!(a.eq(&b));
    assert!(a.contains(&2));
    assert!(!a.contains(&3));
    assert!(!a.insert_unique(2));
    assert!(a.insert_unique(3));
    assert_eq!(a.len(), 4);
    assert!(compare_unordered(&[1u8, 2, 2], &[2u8, 1, 2]));
    assert!(!compare_unordered(&[1u8, 2, 2], &[2u8, 1, 1]));
}

#[test]
fn namespaces_intern_values() {
    let mut ns = IndexNamespace::new();
    let a = ns.insert("http://a.example/");
    let b = ns.insert("http://b.example/");
    assert_ne!(a, b);
    assert_eq!(ns.insert("http://a.example/"), a);
    assert_eq!(ns.iri(b), Some("http://b.example/"));
    assert_eq!(ns.get("http://c.example/"), None);
    let x = ns.insert_blank_id("_:x");
    assert_eq!(ns.get_blank_id("_:x"), Some(x));
    assert_eq!(ns.blank_id(x), Some("_:x"));
}

#[test]
fn profiles_and_directions() {
    assert_eq!(StandardProfile::from_iri("http://www.w3.org/ns/json-ld#framed"), Some(StandardProfile::Framed));
    assert_eq!(StandardProfile::Context.iri(), "http://www.w3.org/ns/json-ld#context");
    assert_eq!(Profile::new("http://example.org/p"), Profile::Custom("http://example.org/p".to_string()));
    assert_eq!(Profile::new("http://www.w3.org/ns/json-ld#expanded").iri(), "http://www.w3.org/ns/json-ld#expanded");
    assert_eq!(RdfDirection::from_str("compound-literal").ok(), Some(RdfDirection::CompoundLiteral));
    assert!(RdfDirection::from_str("other").is_err());
}

#[test]
fn language_strings() {
    assert!(LangString::new("hi".to_string(), None, None).is_err());
    let mut s = LangString::new("hi".to_string(), Some("en".to_string()), None).unwrap();
    assert_eq!(s.as_str(), "hi");
    assert!(s.set_language(None).is_err());
    assert_eq!(s.language().map(|l| l.as_str()), Some("en"));
    assert!(s.set_direction(Some(Direction::Rtl)).is_ok());
    assert!(s.set_language(None).is_ok());
    assert!(s.set_direction(None).is_err());
    assert!(s.set(None, None).is_err());
    assert!(s.set(Some("fr".to_string()), None).is_ok());
    let (text, lang, dir) = s.into_parts();
    assert_eq!((text.as_str(), lang.as_deref(), dir), ("hi", Some("fr"), None));
}

#[test]
fn chained_stores() {
    let mut first = ContextStore::new();
    first.insert("http://a.example/".to_string(), Json::Boolean(true));
    let mut second = ContextStore::new();
    second.insert("http://a.example/".to_string(), Json::Boolean(false));
    second.insert("http://b.example/".to_string(), Json::Null);
    let chain = ChainLoader::new(first, second);
    assert!(matches!(chain.get("http://a.example/"), Some(Json::Boolean(true))));
    assert!(matches!(chain.get("http://b.example/"), Some(Json::Null)));
    assert!(chain.get("http://c.example/").is_none());
    let store = chain.into_store();
    assert_eq!(store.len(), 3);
    assert!(matches!(store.get("http://a.example/"), Some(Json::Boolean(true))));
}

#[test]
fn error_codes_and_messages() {
    let e: Error<CannotLoad> = Error::InvalidIriMapping;
    assert_eq!(e.code(), ErrorCode::InvalidIriMapping);
    assert_eq!(e.code().as_str(), "invalid IRI mapping");
    assert_eq!(e.message(), "invalid IRI mapping");
    let e: Error<CannotLoad> = Error::ContextLoadingFailed(CannotLoad("http://x/".to_string()));
    assert_eq!(e.code(), ErrorCode::LoadingRemoteContextFailed);
    let e: Error<CannotLoad> = Error::InvalidProtectedValue;
    assert_eq!(e.code(), ErrorCode::InvalidPropagateValue);
    let e: Error<CannotLoad> = Error::ContextOverflow;
    assert_eq!(e.code(), ErrorCode::ContextOverflow);
}

#[test]
fn warnings() {
    assert_eq!(Warning::KeywordLikeTerm("@x".to_string()).message(), "keyword-like term `@x`");
    assert_eq!(MalformedIri("a b".to_string()).into_warning(), Warning::MalformedIri("a b".to_string()));
    let mut handler: Vec<Warning> = Vec::new();
    handler.handle(Warning::MalformedIri("x".to_string()));
    assert_eq!(handler.len(), 1);
}

#[test]
fn locations_and_entries() {
    let loc = Location::new("file", 3u32);
    assert_eq!(*loc.source(), "file");
    let l = Loc::new(5u8, loc);
    assert_eq!(*l.value(), 5u8);
    assert_eq!(*l.metadata(), 3u32);
    assert_eq!(l.unwrap(), 5u8);
    let e = Entry::new(1u8, "v");
    assert_eq!(*e.borrow().value, "v");
    assert_eq!(e.map(|v| v.len()).value, 1);
}

#[test]
fn value_types() {
    let t: value::Type<String> = value::Type::Id("http://t.example/".to_string());
    assert_eq!(t.as_reference().map(|s| s.as_str()), Some("http://t.example/"));
    let j: value::Type<String> = value::Type::Json;
    assert_eq!(j.as_reference(), None);
    assert_eq!(t.as_type_ref().as_syntax_type(), Type::Ref("http://t.example/".to_string()));
    assert_eq!(j.as_type_ref().into_reference(), None);
}

#[test]
fn blank_generator_ids_are_valid_blank_ids() {
    let mut g = Blank::new_with_prefix((), "n".to_string());
    let (id, _) = g.next();
    assert_eq!(id, ValidId::Blank("_:n0".to_string()));
    assert_eq!(Reference::from_string(id.as_str().to_string()), Reference::Blank("_:n0".to_string()));
}

fn same_json(a: &Json, b: &Json) -> bool {
    match (a, b) {
        (Json::Null, Json::Null) => true,
        (Json::Boolean(x), Json::Boolean(y)) => x == y,
        (Json::Number(x), Json::Number(y)) => x == y,
        (Json::String(x), Json::String(y)) => x == y,
        (Json::Array(x), Json::Array(y)) => x.len() == y.len() && x.iter().zip(y.iter()).all(|(p, q)| same_json(p, q)),
        (Json::Object(x), Json::Object(y)) => {
            x.len() == y.len() && x.iter().zip(y.iter()).all(|(p, q)| p.0 == q.0 && same_json(&p.1, &q.1))
        }
        _ => false,
    }
}

fn jstr(x: &str) -> Json {
    Json::String(x.to_string())
}

#[test]
fn term_definitions_in_syntactic_form() {
    let simple = defined(iri("http://a.example/x"), false);
    assert!(same_json(&simple.into_syntax_definition(), &jstr("http://a.example/x")));
    let prefix = defined(iri("http://a.example/"), true);
    let expected = Json::Object(vec![("@id".to_string(), jstr("http://a.example/")), ("@prefix".to_string(), Json::Boolean(true))]);
    assert!(same_json(&prefix.into_syntax_definition(), &expected));
    assert!(same_json(&TermDefinition::new(false).into_syntax_definition(), &Json::Null));
    let mut reverse = defined(iri("http://a.example/parent"), false);
    reverse.reverse_property = true;
    reverse.container = Container::SetOnly;
    let expected = Json::Object(vec![("@reverse".to_string(), jstr("http://a.example/parent")), ("@container".to_string(), jstr("@set"))]);
    assert!(same_json(&reverse.into_syntax_definition(), &expected));
    let mut typed = defined(iri("http://a.example/t"), false);
    typed.typ = Some(Type::Id);
    typed.protected = true;
    typed.container = Container::GraphIndex;
    let expected = Json::Object(vec![
        ("@id".to_string(), jstr("http://a.example/t")),
        ("@type".to_string(), jstr("@id")),
        ("@container".to_string(), Json::Array(vec![jstr("@graph"), jstr("@index")])),
        ("@protected".to_string(), Json::Boolean(true)),
    ]);
    assert!(same_json(&typed.into_syntax_definition(), &expected));
}

#[test]
fn contexts_in_syntactic_form() {
    let mut c = Context::new(None);
    c.set_vocabulary(Some(iri("http://v.example/")));
    c.set_default_language(Some("en".to_string()));
    c.set("a", Some(defined(iri("http://a.example/x"), false)));
    let expected = Json::Object(vec![
        ("@language".to_string(), jstr("en")),
        ("@vocab".to_string(), jstr("http://v.example/")),
        ("a".to_string(), jstr("http://a.example/x")),
    ]);
    assert!(same_json(&c.into_syntax_definition(), &expected));
}

#[test]
fn defined_terms_begin_and_end() {
    let mut d = DefinedTerms::new();
    assert!(matches!(d.begin::<CannotLoad>("t"), Ok(true)));
    assert_eq!(d.get("t"), Some(false));
    assert!(matches!(d.begin::<CannotLoad>("t"), Err(Error::CyclicIriMapping)));
    d.end("t");
    assert_eq!(d.get("t"), Some(true));
    assert!(matches!(d.begin::<CannotLoad>("t"), Ok(false)));
    assert_eq!(d.get("u"), None);
}

#[test]
fn json_kinds() {
    assert_eq!(Json::Null.kind(), Kind::Null);
    assert_eq!(Json::Boolean(true).kind(), Kind::Boolean);
    assert_eq!(Json::Number("1".to_string()).kind(), Kind::Number);
    assert_eq!(jstr("a").kind(), Kind::String);
    assert_eq!(Json::Array(vec![]).kind(), Kind::Array);
    assert_eq!(Json::Object(vec![]).kind(), Kind::Object);
}

#[test]
fn id_from_expanded_json() {
    assert_eq!(Reference::try_from_json_in(jstr("http://a/b")).ok(), Some(Reference::Id("http://a/b".to_string())));
    assert_eq!(Reference::try_from_json_in(jstr("_:b0")).ok(), Some(Reference::Blank("_:b0".to_string())));
    assert_eq!(Reference::try_from_json_in(jstr("not an iri")).ok(), Some(Reference::Invalid("not an iri".to_string())));
    assert_eq!(Reference::try_from_json_in(Json::Boolean(true)).err(), Some(InvalidExpandedJson::InvalidId));
}

#[test]
fn lang_string_from_expanded_json() {
    let s = LangString::try_from_json(vec![], jstr("chat"), Some(jstr("fr")), Some(jstr("ltr"))).unwrap();
    let (data, lang, dir) = s.into_parts();
    assert_eq!(data, "chat");
    assert_eq!(lang, Some("fr".to_string()));
    assert_eq!(dir, Some(Direction::Ltr));

    let s = LangString::try_from_json(vec![], jstr("x"), None, Some(jstr("rtl"))).unwrap();
    assert_eq!(s.direction(), Some(Direction::Rtl));
    assert_eq!(s.language(), None);

    let e = LangString::try_from_json(vec![], Json::Boolean(true), Some(jstr("en")), None).err();
    assert_eq!(e, Some(InvalidExpandedJson::Unexpected(Kind::Boolean, Kind::String)));
    let e = LangString::try_from_json(vec![], jstr("x"), Some(Json::Null), None).err();
    assert_eq!(e, Some(InvalidExpandedJson::Unexpected(Kind::Null, Kind::String)));
    let e = LangString::try_from_json(vec![], jstr("x"), Some(jstr("en")), Some(jstr("up"))).err();
    assert_eq!(e, Some(InvalidExpandedJson::InvalidDirection));
    let e = LangString::try_from_json(vec![], jstr("x"), None, Some(Json::Array(vec![]))).err();
    assert_eq!(e, Some(InvalidExpandedJson::Unexpected(Kind::Array, Kind::String)));
    let e = LangString::try_from_json(vec![("@index".to_string(), jstr("i"))], jstr("x"), Some(jstr("en")), None).err();
    assert_eq!(e, Some(InvalidExpandedJson::UnexpectedEntry));
}

#[test]
fn value_object_accessors() {
    let lit: value::Value<String> = value::Value::Literal(value::Literal::String("s".to_string()), Some("http://t/".to_string()));
    assert_eq!(lit.as_str(), Some("s"));
    assert_eq!(lit.as_bool(), None);
    assert_eq!(lit.literal_type(), Some(&"http://t/".to_string()));
    assert!(matches!(lit.typ(), Some(value::TypeRef::Id(t)) if t == "http://t/"));

    let mut b: value::Value<String> = value::Value::Literal(value::Literal::Boolean(true), None);
    assert_eq!(b.as_bool(), Some(true));
    assert!(b.typ().is_none());
    assert_eq!(b.set_literal_type(Some("http://u/".to_string())), None);
    assert_eq!(b.literal_type(), Some(&"http://u/".to_string()));
    b.map_literal_type(|t| t.map(|x| format!("{}x", x)));
    assert_eq!(b.literal_type(), Some(&"http://u/x".to_string()));

    let n: value::Value<String> = value::Value::Literal(value::Literal::Number("1.5".to_string()), None);
    assert_eq!(n.as_number(), Some("1.5"));
    assert!(n.as_literal().is_some());

    let j: value::Value<String> = value::Value::Json(Json::Null);
    assert!(matches!(j.typ(), Some(value::TypeRef::Json)));
    assert_eq!(j.as_str(), None);
    let mut j2: value::Value<String> = value::Value::Json(Json::Null);
    assert_eq!(j2.set_literal_type(Some("t".to_string())), None);
    assert!(j2.literal_type().is_none());

    let ls = LangString::new("hi".to_string(), Some("en".to_string()), None).unwrap();
    let v: value::Value<String> = value::Value::LangString(ls);
    assert_eq!(v.as_str(), Some("hi"));
    assert_eq!(v.language(), Some(&"en".to_string()));
    assert_eq!(v.direction(), None);
    assert!(v.as_literal().is_none());
}

#[test]
fn context_normal_and_type_definitions() {
    let mut c = Context::new(None);
    let mut d = TermDefinition::new(false);
    d.value = Some(iri("http://a/name"));
    assert!(c.set_normal("name", Some(d)).is_none());
    let mut t = TermDefinition::new(true);
    t.container = Container::SetOnly;
    assert!(c.set_type(Some(t)).is_none());

    assert_eq!(c.get_normal("name").unwrap().value(), Some(&iri("http://a/name")));
    assert!(c.get_normal("@type").is_none());
    assert!(c.get_normal("other").is_none());
    let ty = c.get_type().unwrap();
    assert!(ty.protected());
    assert_eq!(ty.container(), Container::SetOnly);

    let previous = c.set_type(None).unwrap();
    assert!(previous.protected());
    assert!(c.get_type().is_none());
    assert!(c.get_normal("name").is_some());
}

#[test]
fn term_definition_accessors() {
    let mut d = TermDefinition::new(true);
    assert!(d.value().is_none());
    assert!(!d.prefix());
    assert!(d.protected());
    assert!(!d.reverse_property());
    assert!(d.base_url().is_none());
    assert!(d.context().is_none());
    assert_eq!(d.container(), Container::Empty);
    assert!(d.direction().is_none());
    assert!(d.index().is_none());
    assert!(d.language().is_none());
    assert!(d.nest().is_none());
    assert!(d.typ().is_none());
    d.prefix = true;
    d.index = Some("http://a/i".to_string());
    d.nest = Some("@nest".to_string());
    d.language = Some(Nullable::Null);
    d.direction = Some(Nullable::Value(Direction::Rtl));
    d.typ = Some(Type::Id);
    assert!(d.prefix());
    assert_eq!(d.index(), Some(&"http://a/i".to_string()));
    assert_eq!(d.nest(), Some(&"@nest".to_string()));
    assert_eq!(d.language(), Some(&Nullable::Null));
    assert_eq!(d.direction(), Some(Nullable::Value(Direction::Rtl)));
    assert!(matches!(d.typ(), Some(Type::Id)));
}

#[test]
fn numbers_that_are_one_point_one() {
    for n in ["1.1", "1.10", "01.1", "11e-1", "11E-1", "0.11e1", "0.11e+1", "110e-2", "1.1e0", "1.1e-0"] {
        assert!(is_one_point_one(n), "{}", n);
    }
    for n in ["1", "1.0", "11", "-1.1", "1.11", "1.01", "1.1e1", "1.", ".11e1", "1.1e", "1.1e+", "1a1", "", "e", "0.11", "1.1.1"] {
        assert!(!is_one_point_one(n), "{}", n);
    }
}

#[test]
fn contexts_compared_by_settings() {
    let mut a = Context::new(Some("http://a/".to_string()));
    let mut b = Context::new(Some("http://a/".to_string()));
    assert!(a.stripped_eq(&b));
    a.set("t", Some(TermDefinition::new(false)));
    assert!(a.stripped_eq(&b));
    b.set_default_language(Some("en".to_string()));
    assert!(!a.stripped_eq(&b));
    a.set_default_language(Some("en".to_string()));
    assert!(a.stripped_eq(&b));
    a.set_previous_context(Context::new(None));
    assert!(!a.stripped_eq(&b));
    b.set_previous_context(Context::new(None));
    assert!(a.stripped_eq(&b));
    let c = Context::new(Some("http://c/".to_string()));
    assert!(!a.stripped_eq(&c));
}

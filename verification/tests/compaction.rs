use json_ld::compaction::{compact_indexed_value_with, compact_iri, compact_types, select_nest_result, value_value, CompactError, Options};
use json_ld::container::Container;
use json_ld::entries::add_value;
use json_ld::context::Context;
use json_ld::id::{Reference, Term};
use json_ld::json::{json_eq, Json};
use json_ld::lang_string::LangString;
use json_ld::loader::ContextStore;
use json_ld::process::process;
use json_ld::syntax::{Direction, Keyword, ProcessingMode};
use json_ld::value::{Literal, Value};

fn s(x: &str) -> Json {
    Json::String(x.to_string())
}

fn obj(entries: Vec<(&str, Json)>) -> Json {
    Json::Object(entries.into_iter().map(|(k, v)| (k.to_string(), v)).collect())
}

fn ctx(local: Json) -> Context {
    process(&local, &ContextStore::new(), None).unwrap().0
}

fn iri(x: &str) -> Term {
    Term::Ref(Reference::Id(x.to_string()))
}

fn opts() -> Options {
    Options { processing_mode: ProcessingMode::JsonLd1_1, compact_to_relative: true, compact_arrays: true, ordered: false }
}

const M: ProcessingMode = ProcessingMode::JsonLd1_1;

#[test]
fn keywords_compact_to_their_shortest_alias() {
    let c = ctx(obj(vec![]));
    assert_eq!(compact_iri(&c, &Term::Keyword(Keyword::Value), true, opts()).unwrap(), Some("@value".to_string()));
    let c = ctx(obj(vec![("value", s("@value")), ("v", s("@value"))]));
    assert_eq!(compact_iri(&c, &Term::Keyword(Keyword::Value), true, opts()).unwrap(), Some("v".to_string()));
    assert_eq!(compact_iri(&c, &Term::Null, true, opts()).unwrap(), None);
}

#[test]
fn iris_compact_to_terms_suffixes_and_compact_iris() {
    let c = ctx(obj(vec![("name", s("http://ex.org/name")), ("ex", s("http://ex.org/"))]));
    assert_eq!(compact_iri(&c, &iri("http://ex.org/name"), true, opts()).unwrap(), Some("name".to_string()));
    assert_eq!(compact_iri(&c, &iri("http://ex.org/age"), true, opts()).unwrap(), Some("ex:age".to_string()));
    assert_eq!(compact_iri(&c, &iri("http://other.org/x"), true, opts()).unwrap(), Some("http://other.org/x".to_string()));

    let c = ctx(obj(vec![("@vocab", s("http://ex.org/")), ("age", s("http://other.org/age"))]));
    assert_eq!(compact_iri(&c, &iri("http://ex.org/size"), true, opts()).unwrap(), Some("size".to_string()));
    assert_eq!(compact_iri(&c, &iri("http://ex.org/age"), true, opts()).unwrap(), Some("http://ex.org/age".to_string()));
}

#[test]
fn iri_confused_with_prefix() {
    let c = ctx(obj(vec![("foo", s("http://ex.org/"))]));
    assert!(matches!(compact_iri(&c, &iri("foo:bar"), true, opts()), Err(CompactError::IriConfusedWithPrefix)));
    assert_eq!(compact_iri(&c, &iri("foo://bar"), true, opts()).unwrap(), Some("foo://bar".to_string()));
}

#[test]
fn value_compaction() {
    let store = ContextStore::new();
    let c = ctx(obj(vec![
        ("date", obj(vec![("@id", s("http://ex.org/date")), ("@type", s("http://www.w3.org/2001/XMLSchema#date"))])),
        ("data", obj(vec![("@id", s("http://ex.org/data")), ("@type", s("@json"))])),
        ("xsd", s("http://www.w3.org/2001/XMLSchema#")),
    ]));
    let plain: Value<String> = Value::Literal(Literal::String("x".to_string()), None);
    assert!(json_eq(&compact_indexed_value_with(&plain, None, &c, None, &store, opts()).unwrap(), &s("x")));

    let typed: Value<String> = Value::Literal(Literal::String("2020-01-01".to_string()), Some("http://www.w3.org/2001/XMLSchema#date".to_string()));
    assert!(json_eq(&compact_indexed_value_with(&typed, None, &c, Some("date"), &store, opts()).unwrap(), &s("2020-01-01")));
    assert!(json_eq(&compact_indexed_value_with(&typed, None, &c, None, &store, opts()).unwrap(), &obj(vec![("@value", s("2020-01-01")), ("@type", s("xsd:date"))])));

    let n: Value<String> = Value::Literal(Literal::Number("3".to_string()), None);
    let idx = "i1".to_string();
    assert!(json_eq(&compact_indexed_value_with(&n, Some(&idx), &c, None, &store, opts()).unwrap(), &obj(vec![("@value", Json::Number("3".to_string())), ("@index", s("i1"))])));

    let j: Value<String> = Value::Json(obj(vec![("a", Json::Boolean(true))]));
    assert!(json_eq(&compact_indexed_value_with(&j, None, &c, Some("data"), &store, opts()).unwrap(), &obj(vec![("a", Json::Boolean(true))])));
    assert!(json_eq(&compact_indexed_value_with(&j, None, &c, None, &store, opts()).unwrap(), &obj(vec![("@value", obj(vec![("a", Json::Boolean(true))])), ("@type", s("@json"))])));
}

#[test]
fn language_strings_compaction() {
    let store = ContextStore::new();
    let c = ctx(obj(vec![("@language", s("en"))]));
    let en: Value<String> = Value::LangString(LangString::new("hi".to_string(), Some("en".to_string()), None).unwrap());
    assert!(json_eq(&compact_indexed_value_with(&en, None, &c, None, &store, opts()).unwrap(), &s("hi")));
    let fr: Value<String> = Value::LangString(LangString::new("salut".to_string(), Some("fr".to_string()), Some(Direction::Ltr)).unwrap());
    assert!(json_eq(&compact_indexed_value_with(&fr, None, &c, None, &store, opts()).unwrap(), &obj(vec![("@value", s("salut")), ("@language", s("fr")), ("@direction", s("ltr"))])));
    let plain: Value<String> = Value::Literal(Literal::String("x".to_string()), None);
    assert!(json_eq(&compact_indexed_value_with(&plain, None, &c, None, &store, opts()).unwrap(), &obj(vec![("@value", s("x"))])));
}

#[test]
fn scoped_context_of_the_property_applies() {
    let store = ContextStore::new();
    let c = ctx(obj(vec![(
        "p",
        obj(vec![("@id", s("http://ex.org/p")), ("@context", obj(vec![("@language", s("de"))]))]),
    )]));
    let de: Value<String> = Value::LangString(LangString::new("hallo".to_string(), Some("de".to_string()), None).unwrap());
    assert!(json_eq(&compact_indexed_value_with(&de, None, &c, Some("p"), &store, opts()).unwrap(), &s("hallo")));
    assert!(json_eq(&compact_indexed_value_with(&de, None, &c, None, &store, opts()).unwrap(), &obj(vec![("@value", s("hallo")), ("@language", s("de"))])));
}

fn entries(e: &Vec<(String, Json)>) -> Json {
    let mut copy = Vec::new();
    for (k, v) in e {
        copy.push((k.clone(), v.deep_clone()));
    }
    Json::Object(copy)
}

#[test]
fn add_value_collects_values() {
    let mut m: Vec<(String, Json)> = vec![("a".to_string(), s("x"))];
    add_value(&mut m, "b", &s("1"), false);
    assert!(json_eq(&entries(&m), &obj(vec![("a", s("x")), ("b", s("1"))])));
    add_value(&mut m, "a", &s("y"), false);
    assert!(json_eq(&entries(&m), &obj(vec![("b", s("1")), ("a", Json::Array(vec![s("x"), s("y")]))])));
    add_value(&mut m, "c", &Json::Array(vec![s("p"), s("q")]), false);
    assert!(json_eq(&entries(&m), &obj(vec![("b", s("1")), ("a", Json::Array(vec![s("x"), s("y")])), ("c", Json::Array(vec![s("p"), s("q")]))])));
    add_value(&mut m, "d", &Json::Array(vec![]), true);
    assert!(json_eq(&entries(&m), &obj(vec![("b", s("1")), ("a", Json::Array(vec![s("x"), s("y")])), ("c", Json::Array(vec![s("p"), s("q")])), ("d", Json::Array(vec![]))])));
    add_value(&mut m, "e", &s("z"), true);
    assert!(json_eq(&m.last().unwrap().1, &Json::Array(vec![s("z")])));
}

#[test]
fn types_compaction() {
    let c = ctx(obj(vec![("Person", s("http://ex.org/Person")), ("ex", s("http://ex.org/"))]));
    let mut m: Vec<(String, Json)> = Vec::new();
    let one = vec![Reference::Id("http://ex.org/Person".to_string())];
    compact_types(&mut m, Some(&one), &c, &c, opts()).unwrap();
    assert!(json_eq(&entries(&m), &obj(vec![("@type", s("Person"))])));

    let mut m: Vec<(String, Json)> = Vec::new();
    let two = vec![Reference::Id("http://ex.org/Person".to_string()), Reference::Id("http://ex.org/Agent".to_string())];
    compact_types(&mut m, Some(&two), &c, &c, opts()).unwrap();
    assert!(json_eq(&entries(&m), &obj(vec![("@type", Json::Array(vec![s("Person"), s("ex:Agent")]))])));

    let c2 = ctx(obj(vec![("type", obj(vec![("@id", s("@type")), ("@container", s("@set"))]))]));
    let mut m: Vec<(String, Json)> = Vec::new();
    compact_types(&mut m, Some(&one), &c2, &c2, opts()).unwrap();
    assert!(json_eq(&entries(&m), &obj(vec![("type", Json::Array(vec![s("http://ex.org/Person")]))])));

    let mut m: Vec<(String, Json)> = Vec::new();
    compact_types(&mut m, None, &c, &c, opts()).unwrap();
    assert!(m.is_empty());

    let bad = ctx(obj(vec![("foo", s("http://ex.org/"))]));
    let confused = vec![Reference::Id("foo:bar".to_string())];
    let mut m: Vec<(String, Json)> = Vec::new();
    assert!(matches!(compact_types(&mut m, Some(&confused), &bad, &bad, opts()), Err(CompactError::IriConfusedWithPrefix)));
    assert!(m.is_empty());
}

#[test]
fn document_relative_iri_compaction() {
    let c = ctx(obj(vec![("@base", s("http://ex.org/a/"))]));
    assert_eq!(compact_iri(&c, &iri("http://ex.org/a/b"), false, opts()).unwrap(), Some("b".to_string()));
    let absolute = Options { compact_to_relative: false, ..opts() };
    assert_eq!(compact_iri(&c, &iri("http://ex.org/a/b"), false, absolute).unwrap(), Some("http://ex.org/a/b".to_string()));
    let blank = Term::Ref(Reference::Blank("_:b0".to_string()));
    assert_eq!(compact_iri(&c, &blank, false, opts()).unwrap(), Some("_:b0".to_string()));
    let c = ctx(obj(vec![("ex", s("http://ex.org/"))]));
    assert_eq!(compact_iri(&c, &iri("http://ex.org/x"), false, opts()).unwrap(), Some("ex:x".to_string()));
}

#[test]
fn values_of_value_objects() {
    let v: Value<String> = Value::Literal(Literal::Boolean(true), Some("http://t/".to_string()));
    assert!(json_eq(&value_value(&v), &Json::Boolean(true)));
    let l: Value<String> = Value::LangString(LangString::new("a".to_string(), Some("en".to_string()), None).unwrap());
    assert!(json_eq(&value_value(&l), &s("a")));
    let j: Value<String> = Value::Json(Json::Null);
    assert!(json_eq(&value_value(&j), &Json::Null));
}

#[test]
fn nest_selection() {
    let c = ctx(obj(vec![
        ("p", obj(vec![("@id", s("http://ex.org/p")), ("@nest", s("n")), ("@container", s("@set"))])),
        ("n", s("@nest")),
        ("q", s("http://ex.org/q")),
    ]));
    let mut m: Vec<(String, Json)> = Vec::new();
    let (nest, container, as_array) = select_nest_result(&mut m, &c, "p", true).unwrap();
    assert_eq!(nest, Some("n".to_string()));
    assert_eq!(container, Container::SetOnly);
    assert!(as_array);
    assert!(json_eq(&entries(&m), &obj(vec![("n", obj(vec![]))])));
    let (nest, container, as_array) = select_nest_result(&mut m, &c, "q", true).unwrap();
    assert_eq!(nest, None);
    assert_eq!(container, Container::Empty);
    assert!(!as_array);
    let (_, _, as_array) = select_nest_result(&mut m, &c, "@list", true).unwrap();
    assert!(as_array);
    let (_, _, as_array) = select_nest_result(&mut m, &c, "q", false).unwrap();
    assert!(as_array);

    let bad = ctx(obj(vec![("p", obj(vec![("@id", s("http://ex.org/p")), ("@nest", s("@nest"))])), ("r", obj(vec![("@id", s("http://ex.org/r")), ("@nest", s("p"))]))]));
    let mut m: Vec<(String, Json)> = Vec::new();
    assert!(matches!(select_nest_result(&mut m, &bad, "r", true), Err(CompactError::InvalidNestValue)));
    assert!(m.is_empty());
}

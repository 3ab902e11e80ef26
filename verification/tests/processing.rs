use json_ld::container::Container;
use json_ld::context::{Context, TermDefinition, Type};
use json_ld::error::{Error, Warning};
use json_ld::id::{Reference, Term};
use json_ld::json::Json;
use json_ld::loader::{CannotLoad, ContextStore};
use json_ld::nullable::Nullable;
use json_ld::process::{context_depth_bound, process, process_full, process_local};
use json_ld::processing::{Options, ProcessingStack};
use json_ld::syntax::{Direction, Keyword, ProcessingMode};

fn s(x: &str) -> Json {
    Json::String(x.to_string())
}

fn obj(entries: Vec<(&str, Json)>) -> Json {
    Json::Object(entries.into_iter().map(|(k, v)| (k.to_string(), v)).collect())
}

fn arr(items: Vec<Json>) -> Json {
    Json::Array(items)
}

fn id(x: &str) -> Option<Term> {
    Some(Term::Ref(Reference::Id(x.to_string())))
}

fn run(local: Json) -> Result<(Context, Vec<Warning>), Error<CannotLoad>> {
    process(&local, &ContextStore::new(), None)
}

fn def<'a>(c: &'a Context, term: &str) -> &'a TermDefinition {
    c.get(term).expect("term is defined")
}

#[test]
fn term_with_iri_mapping() {
    let (c, w) = run(obj(vec![("name", s("http://xmlns.com/foaf/0.1/name"))])).unwrap();
    assert!(w.is_empty());
    let d = def(&c, "name");
    assert_eq!(d.value, id("http://xmlns.com/foaf/0.1/name"));
    assert!(!d.prefix);
    assert!(!d.protected);
    assert_eq!(c.len(), 1);
}

#[test]
fn term_ending_with_gen_delim_is_prefix() {
    let (c, _) = run(obj(vec![("foaf", s("http://xmlns.com/foaf/0.1/"))])).unwrap();
    assert!(def(&c, "foaf").prefix);
}

#[test]
fn compact_iri_term_uses_prefix() {
    let local = obj(vec![
        ("foaf", s("http://xmlns.com/foaf/0.1/")),
        ("foaf:knows", obj(vec![("@type", s("@id"))])),
    ]);
    let (c, _) = run(local).unwrap();
    let d = def(&c, "foaf:knows");
    assert_eq!(d.value, id("http://xmlns.com/foaf/0.1/knows"));
    assert_eq!(d.typ, Some(Type::Id));
}

#[test]
fn compact_id_is_expanded() {
    let local = obj(vec![
        ("ex", s("http://example.org/")),
        ("knows", s("ex:knows")),
    ]);
    let (c, _) = run(local).unwrap();
    assert_eq!(def(&c, "knows").value, id("http://example.org/knows"));
}

#[test]
fn vocabulary_mapping_defines_terms() {
    let local = obj(vec![("@vocab", s("http://example.org/")), ("knows", obj(vec![]))]);
    let (c, _) = run(local).unwrap();
    assert_eq!(c.vocabulary(), Some(&Term::Ref(Reference::Id("http://example.org/".to_string()))));
    assert_eq!(def(&c, "knows").value, id("http://example.org/knows"));
}

#[test]
fn term_without_vocabulary_is_invalid() {
    let r = run(obj(vec![("knows", obj(vec![]))]));
    assert!(matches!(r, Err(Error::InvalidIriMapping)));
}

#[test]
fn base_is_resolved_against_base_url() {
    let base = "http://example.org/dir/".to_string();
    let r = process(&obj(vec![("@base", s("sub/"))]), &ContextStore::new(), Some(&base));
    assert!(matches!(r, Err(Error::InvalidBaseIri)));
    let active = Context::new(Some(base.clone()));
    let (c, _) = process_full(&obj(vec![("@base", s("sub/"))]), &ContextStore::new(), &active, Some(&base), Options::default()).unwrap();
    assert_eq!(c.base_iri().map(|b| b.as_str()), Some("http://example.org/dir/sub/"));
    let (c, _) = process_full(&obj(vec![("@base", Json::Null)]), &ContextStore::new(), &active, None, Options::default()).unwrap();
    assert_eq!(c.base_iri(), None);
    assert_eq!(c.original_base_url().map(|b| b.as_str()), Some("http://example.org/dir/"));
}

#[test]
fn null_resets_the_context() {
    let local = arr(vec![obj(vec![("a", s("http://a.example/"))]), Json::Null]);
    let (c, _) = run(local).unwrap();
    assert!(c.is_empty());
    assert!(c.get("a").is_none());
}

#[test]
fn empty_list_keeps_the_context() {
    let (active, _) = run(obj(vec![("a", s("http://a.example/"))])).unwrap();
    let (c, w) = process_full(&arr(vec![]), &ContextStore::new(), &active, None, Options::default()).unwrap();
    assert!(w.is_empty());
    assert_eq!(def(&c, "a").value, id("http://a.example/"));
}

#[test]
fn protected_term_blocks_nullification() {
    let (active, _) = run(obj(vec![("@protected", Json::Boolean(true)), ("a", s("http://a.example/"))])).unwrap();
    assert!(active.has_protected_items());
    let r = process_full(&Json::Null, &ContextStore::new(), &active, None, Options::default());
    assert!(matches!(r, Err(Error::InvalidContextNullification)));
    let r = process_full(&Json::Null, &ContextStore::new(), &active, None, Options::default().with_override());
    assert!(r.unwrap().0.is_empty());
}

#[test]
fn protected_term_redefinition() {
    let (active, _) = run(obj(vec![("@protected", Json::Boolean(true)), ("a", s("http://a.example/"))])).unwrap();
    let r = process_full(&obj(vec![("a", s("http://b.example/"))]), &ContextStore::new(), &active, None, Options::default());
    assert!(matches!(r, Err(Error::ProtectedTermRedefinition)));
    let (c, _) = process_full(&obj(vec![("a", s("http://a.example/"))]), &ContextStore::new(), &active, None, Options::default()).unwrap();
    assert!(def(&c, "a").protected);
    let (c, _) = process_full(&obj(vec![("a", s("http://b.example/"))]), &ContextStore::new(), &active, None, Options::default().with_override()).unwrap();
    assert_eq!(def(&c, "a").value, id("http://b.example/"));
}

#[test]
fn protected_entry_of_a_definition() {
    let (c, _) = run(obj(vec![("a", obj(vec![("@id", s("http://a.example/")), ("@protected", Json::Boolean(true))]))])).unwrap();
    assert!(def(&c, "a").protected);
    let r = run(obj(vec![("a", obj(vec![("@id", s("http://a.example/")), ("@protected", s("yes"))]))]));
    assert!(matches!(r, Err(Error::InvalidProtectedValue)));
}

#[test]
fn cyclic_iri_mapping() {
    let r = run(obj(vec![("a", s("b:x")), ("b", s("a:y"))]));
    assert!(matches!(r, Err(Error::CyclicIriMapping)));
}

#[test]
fn keyword_redefinition() {
    let r = run(obj(vec![("@id", s("http://example.org/id"))]));
    assert!(matches!(r, Err(Error::KeywordRedefinition)));
    let r = run(obj(vec![("@type", s("http://example.org/type"))]));
    assert!(matches!(r, Err(Error::KeywordRedefinition)));
    let (c, _) = run(obj(vec![("@type", obj(vec![("@container", s("@set"))]))])).unwrap();
    assert_eq!(def(&c, "@type").value, Some(Term::Keyword(Keyword::Type)));
    assert_eq!(def(&c, "@type").container, Container::SetOnly);
}

#[test]
fn keyword_like_term_is_ignored_with_a_warning() {
    let (c, w) = run(obj(vec![("@foo", s("http://example.org/foo"))])).unwrap();
    assert!(c.get("@foo").is_none());
    assert_eq!(w, vec![Warning::KeywordLikeTerm("@foo".to_string())]);
}

#[test]
fn keyword_like_id_is_ignored_with_a_warning() {
    let (c, w) = run(obj(vec![("a", s("@foo"))])).unwrap();
    assert!(c.get("a").is_none());
    assert_eq!(w, vec![Warning::KeywordLikeValue("@foo".to_string())]);
}

#[test]
fn invalid_term_definitions() {
    assert!(matches!(run(obj(vec![("a", Json::Number("5".to_string()))])), Err(Error::InvalidTermDefinition)));
    assert!(matches!(run(obj(vec![("", s("http://a.example/"))])), Err(Error::InvalidTermDefinition)));
    assert!(matches!(run(obj(vec![("a", obj(vec![("@id", s("http://a.example/")), ("@foo", s("x"))]))])), Err(Error::InvalidTermDefinition)));
    assert!(matches!(run(obj(vec![("a", obj(vec![("@id", s("http://a.example/")), ("@index", s("http://i.example/"))]))])), Err(Error::InvalidTermDefinition)));
}

#[test]
fn keyword_alias() {
    let (c, _) = run(obj(vec![("id", s("@id"))])).unwrap();
    assert_eq!(def(&c, "id").value, Some(Term::Keyword(Keyword::Id)));
    assert!(matches!(run(obj(vec![("ctx", s("@context"))])), Err(Error::InvalidKeywordAlias)));
}

#[test]
fn invalid_iri_mapping() {
    assert!(matches!(run(obj(vec![("a", Json::Boolean(true))])), Err(Error::InvalidTermDefinition)));
    assert!(matches!(run(obj(vec![("a", obj(vec![("@id", Json::Number("1".to_string()))]))])), Err(Error::InvalidIriMapping)));
    assert!(matches!(run(obj(vec![("a", s("relative"))])), Err(Error::InvalidIriMapping)));
}

#[test]
fn remote_context_from_the_store() {
    let mut store = ContextStore::new();
    store.insert("http://example.org/ctx".to_string(), obj(vec![("@context", obj(vec![("b", s("http://b.example/"))]))]));
    let (c, _) = process(&s("http://example.org/ctx"), &store, None).unwrap();
    assert_eq!(def(&c, "b").value, id("http://b.example/"));
}

#[test]
fn relative_remote_context_is_resolved() {
    let mut store = ContextStore::new();
    store.insert("http://example.org/ctx.json".to_string(), obj(vec![("@context", obj(vec![("b", s("http://b.example/"))]))]));
    let base = "http://example.org/doc".to_string();
    let (c, _) = process(&s("ctx.json"), &store, Some(&base)).unwrap();
    assert_eq!(def(&c, "b").value, id("http://b.example/"));
    assert!(matches!(process(&s("ctx.json"), &store, None), Err(Error::LoadingDocumentFailed)));
}

#[test]
fn missing_remote_context_names_its_iri() {
    let r = process(&s("http://example.org/missing"), &ContextStore::new(), None);
    match r {
        Err(Error::ContextLoadingFailed(CannotLoad(iri))) => assert_eq!(iri, "http://example.org/missing"),
        _ => panic!("expected a loading failure"),
    }
}

#[test]
fn remote_document_without_context() {
    let mut store = ContextStore::new();
    store.insert("http://example.org/ctx".to_string(), obj(vec![("b", s("http://b.example/"))]));
    assert!(matches!(process(&s("http://example.org/ctx"), &store, None), Err(Error::InvalidRemoteContext)));
}

#[test]
fn remote_context_cycle_is_loaded_once() {
    let mut store = ContextStore::new();
    store.insert(
        "http://example.org/a".to_string(),
        obj(vec![("@context", arr(vec![obj(vec![("a", s("http://a.example/"))]), s("http://example.org/a")]))]),
    );
    let (c, _) = process(&s("http://example.org/a"), &store, None).unwrap();
    assert_eq!(def(&c, "a").value, id("http://a.example/"));
}

#[test]
fn context_overflow() {
    let mut store = ContextStore::new();
    store.insert("http://example.org/1".to_string(), obj(vec![("@context", s("http://example.org/2"))]));
    store.insert("http://example.org/2".to_string(), obj(vec![("@context", obj(vec![("b", s("http://b.example/"))]))]));
    let active = Context::new(None);
    let stack = ProcessingStack::new();
    let r = process_local(&store, &active, &s("http://example.org/1"), &stack, None, Options::default(), 1, Vec::new());
    assert!(matches!(r, Err(Error::ContextOverflow)));
    let (c, _) = process_local(&store, &active, &s("http://example.org/1"), &stack, None, Options::default(), 2, Vec::new()).unwrap();
    assert_eq!(def(&c, "b").value, id("http://b.example/"));
    let local = s("http://example.org/1");
    assert_eq!(context_depth_bound(&store, &local), 3 * (6 + 1 + 1));
    assert!(process(&local, &store, None).is_ok());
}

#[test]
fn import_merges_contexts() {
    let mut store = ContextStore::new();
    store.insert(
        "http://example.org/imp".to_string(),
        obj(vec![("@context", obj(vec![("a", s("http://a.example/")), ("b", s("http://b.example/"))]))]),
    );
    let local = obj(vec![("@import", s("http://example.org/imp")), ("b", s("http://override.example/"))]);
    let (c, _) = process(&local, &store, None).unwrap();
    assert_eq!(def(&c, "a").value, id("http://a.example/"));
    assert_eq!(def(&c, "b").value, id("http://override.example/"));
    assert!(matches!(process(&obj(vec![("@import", Json::Boolean(true))]), &store, None), Err(Error::InvalidImportValue)));
}

#[test]
fn scoped_context_is_kept() {
    let local = obj(vec![("a", obj(vec![("@id", s("http://a.example/")), ("@context", obj(vec![("b", s("http://b.example/"))]))]))]);
    let (c, _) = run(local).unwrap();
    assert!(def(&c, "a").context.is_some());
    assert!(c.get("b").is_none());
    let bad = obj(vec![("a", obj(vec![("@id", s("http://a.example/")), ("@context", Json::Number("5".to_string()))]))]);
    assert!(matches!(run(bad), Err(Error::InvalidScopedContext)));
}

#[test]
fn reverse_property() {
    let (c, _) = run(obj(vec![("children", obj(vec![("@reverse", s("http://example.org/parent"))]))])).unwrap();
    let d = def(&c, "children");
    assert!(d.reverse_property);
    assert_eq!(d.value, id("http://example.org/parent"));
    let bad = obj(vec![("children", obj(vec![("@reverse", s("http://example.org/parent")), ("@id", s("http://x.example/"))]))]);
    assert!(matches!(run(bad), Err(Error::InvalidReverseProperty)));
}

#[test]
fn containers() {
    let (c, _) = run(obj(vec![("l", obj(vec![("@id", s("http://l.example/")), ("@container", s("@list"))]))])).unwrap();
    assert_eq!(def(&c, "l").container, Container::List);
    let (c, _) = run(obj(vec![("t", obj(vec![("@id", s("http://t.example/")), ("@container", s("@type"))]))])).unwrap();
    assert_eq!(def(&c, "t").typ, Some(Type::Id));
    let bad = obj(vec![("l", obj(vec![("@id", s("http://l.example/")), ("@container", s("@foo"))]))]);
    assert!(matches!(run(bad), Err(Error::InvalidContainerMapping)));
}

#[test]
fn index_mapping() {
    let local = obj(vec![("ix", obj(vec![("@id", s("http://ix.example/")), ("@container", s("@index")), ("@index", s("http://p.example/"))]))]);
    let (c, _) = run(local).unwrap();
    assert_eq!(def(&c, "ix").index, Some("http://p.example/".to_string()));
}

#[test]
fn language_and_direction() {
    let (c, w) = run(obj(vec![("@language", s("en"))])).unwrap();
    assert!(w.is_empty());
    assert_eq!(c.default_language().map(|l| l.as_str()), Some("en"));
    let (_, w) = run(obj(vec![("@language", s("not a tag"))])).unwrap();
    assert_eq!(w, vec![Warning::MalformedLanguageTag("not a tag".to_string())]);
    assert!(matches!(run(obj(vec![("@language", Json::Boolean(true))])), Err(Error::InvalidDefaultLanguage)));
    let (c, _) = run(obj(vec![("@direction", s("rtl"))])).unwrap();
    assert_eq!(c.default_base_direction(), Some(Direction::Rtl));
    assert!(matches!(run(obj(vec![("@direction", s("up"))])), Err(Error::InvalidBaseDirection)));
    let (c, _) = run(obj(vec![("t", obj(vec![("@id", s("http://t.example/")), ("@language", s("fr")), ("@direction", Json::Null)]))])).unwrap();
    assert_eq!(def(&c, "t").language, Some(Nullable::Value("fr".to_string())));
    assert_eq!(def(&c, "t").direction, Some(Nullable::Null));
    assert!(matches!(run(obj(vec![("t", obj(vec![("@id", s("http://t.example/")), ("@language", Json::Boolean(false))]))])), Err(Error::InvalidLanguageMapping)));
}

#[test]
fn version_and_processing_mode() {
    let one_one = Json::Number("1.1".to_string());
    assert!(run(obj(vec![("@version", Json::Number("1.1".to_string()))])).is_ok());
    assert!(matches!(run(obj(vec![("@version", Json::Number("1.0".to_string()))])), Err(Error::InvalidVersionValue)));
    let old = Options { processing_mode: ProcessingMode::JsonLd1_0, override_protected: false, propagate: true };
    let r = process_full(&obj(vec![("@version", one_one)]), &ContextStore::new(), &Context::new(None), None, old);
    assert!(matches!(r, Err(Error::ProcessingModeConflict)));
}

#[test]
fn propagate_entry() {
    assert!(matches!(run(obj(vec![("@propagate", s("no"))])), Err(Error::InvalidPropagateValue)));
    let (c, _) = run(obj(vec![("@propagate", Json::Boolean(false)), ("a", s("http://a.example/"))])).unwrap();
    assert!(c.previous_context().is_some());
    assert!(c.previous_context().unwrap().is_empty());
}

#[test]
fn invalid_local_context() {
    assert!(matches!(run(Json::Number("5".to_string())), Err(Error::InvalidLocalContext)));
    assert!(matches!(run(arr(vec![Json::Boolean(true)])), Err(Error::InvalidLocalContext)));
}

#[test]
fn nest_and_prefix_entries() {
    let (c, _) = run(obj(vec![("n", obj(vec![("@id", s("http://n.example/")), ("@nest", s("@nest"))]))])).unwrap();
    assert_eq!(def(&c, "n").nest, Some("@nest".to_string()));
    assert!(matches!(run(obj(vec![("n", obj(vec![("@id", s("http://n.example/")), ("@nest", s("@id"))]))])), Err(Error::InvalidNestValue)));
    let (c, _) = run(obj(vec![("p", obj(vec![("@id", s("http://p.example/x")), ("@prefix", Json::Boolean(true))]))])).unwrap();
    assert!(def(&c, "p").prefix);
    assert!(matches!(run(obj(vec![("p", obj(vec![("@id", s("http://p.example/")), ("@prefix", s("yes"))]))])), Err(Error::InvalidPrefixValue)));
}

#[test]
fn type_mapping_entries() {
    let (c, _) = run(obj(vec![("t", obj(vec![("@id", s("http://t.example/")), ("@type", s("@json"))]))])).unwrap();
    assert_eq!(def(&c, "t").typ, Some(Type::Json));
    assert!(matches!(run(obj(vec![("t", obj(vec![("@id", s("http://t.example/")), ("@type", Json::Boolean(true))]))])), Err(Error::InvalidTypeMapping)));
    let old = Options { processing_mode: ProcessingMode::JsonLd1_0, override_protected: false, propagate: true };
    let r = process_full(&obj(vec![("t", obj(vec![("@id", s("http://t.example/")), ("@type", s("@json"))]))]), &ContextStore::new(), &Context::new(None), None, old);
    assert!(matches!(r, Err(Error::InvalidTypeMapping)));
}

#[test]
fn vocabulary_entry_errors() {
    assert!(matches!(run(obj(vec![("@vocab", Json::Boolean(true))])), Err(Error::InvalidVocabMapping)));
    assert!(matches!(run(obj(vec![("@base", Json::Boolean(true))])), Err(Error::InvalidBaseIri)));
    let (c, _) = run(obj(vec![("@vocab", s("http://example.org/")), ("@vocab", Json::Null)])).unwrap();
    assert_eq!(c.vocabulary(), Some(&Term::Ref(Reference::Id("http://example.org/".to_string()))));
}

#[test]
fn keyword_like_vocab_is_refused() {
    assert!(matches!(run(obj(vec![("@vocab", s("@foo"))])), Err(Error::InvalidVocabMapping)));
}

#[test]
fn remote_stack_is_shared_by_later_items() {
    let mut store = ContextStore::new();
    store.insert("http://example.org/r".to_string(), obj(vec![("@context", obj(vec![("b", s("http://b.example/"))]))]));
    let base = "http://example.org/doc".to_string();
    let local = arr(vec![s("http://example.org/r"), obj(vec![("@base", s("http://other.example/"))])]);
    let active = Context::new(Some(base.clone()));
    let (c, _) = process_full(&local, &store, &active, Some(&base), Options::default()).unwrap();
    assert_eq!(c.base_iri(), Some(&base));
    assert_eq!(def(&c, "b").value, id("http://b.example/"));

    let local = arr(vec![s("http://example.org/r"), obj(vec![("b", Json::Null)]), s("http://example.org/r")]);
    let (c, _) = process(&local, &store, Some(&base)).unwrap();
    assert_eq!(def(&c, "b").value, None);
}

#[test]
fn version_compared_by_value() {
    let mut o = vec![("@version", Json::Number("1.10".to_string()))];
    o.push(("a", s("http://a.example/")));
    assert!(run(obj(o)).is_ok());
    assert!(matches!(run(obj(vec![("@version", Json::Number("1.0".to_string()))])), Err(Error::InvalidVersionValue)));
    assert!(matches!(run(obj(vec![("@version", s("1.1"))])), Err(Error::InvalidVersionValue)));
}

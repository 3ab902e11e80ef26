use json_ld::generator::{Blank, Uuid};
use json_ld::id::ValidId;

fn namespace() -> [u8; 16] {
    *uuid::Uuid::parse_str("936DA01F9ABD4d9d80C702AF85C822A8").unwrap().as_bytes()
}

#[test]
fn uuidv3_iri() {
    let mut uuid_gen = Uuid::V3((), namespace(), "test".to_string());
    for _ in 0..100 {
        let reference: ValidId = uuid_gen.next().0;
        assert!(iref::IriBuf::new(reference.as_str()).is_ok())
    }
}

#[test]
fn uuidv4_iri() {
    let mut uuid_gen = Uuid::V4(());
    for _ in 0..100 {
        let reference: ValidId = uuid_gen.next().0;
        assert!(iref::IriBuf::new(reference.as_str()).is_ok())
    }
}

#[test]
fn uuidv5_iri() {
    let mut uuid_gen = Uuid::V5((), namespace(), "test".to_string());
    for _ in 0..100 {
        let reference: ValidId = uuid_gen.next().0;
        assert!(iref::IriBuf::new(reference.as_str()).is_ok())
    }
}

#[test]
fn uuid_urns_match_the_uuid_crate() {
    let ns = uuid::Uuid::from_bytes(namespace());
    let mut v3 = Uuid::V3(7u8, namespace(), "test".to_string());
    let (id, meta) = v3.next();
    assert_eq!(meta, 7u8);
    let expected = format!("urn:uuid:{}", uuid::Uuid::new_v3(&ns, b"test").to_hyphenated());
    assert_eq!(id, ValidId::Iri(expected));
    let mut v5 = Uuid::V5((), namespace(), "test".to_string());
    let expected = format!("urn:uuid:{}", uuid::Uuid::new_v5(&ns, b"test").to_hyphenated());
    assert_eq!(v5.next().0, ValidId::Iri(expected));
    let v4 = Uuid::V4(());
    let (a, _) = v4.next_uuid();
    let (b, _) = v4.next_uuid();
    assert_ne!(a, b);
}

#[test]
fn uuid_urn_has_the_hyphenated_form() {
    let mut v4 = Uuid::V4(());
    let text = match v4.next().0 {
        ValidId::Iri(s) => s,
        ValidId::Blank(_) => panic!("UUIDs are IRIs"),
    };
    assert_eq!(text.len(), 45);
    assert!(text.starts_with("urn:uuid:"));
    let hex = &text[9..];
    for (i, c) in hex.chars().enumerate() {
        if i == 8 || i == 13 || i == 18 || i == 23 {
            assert_eq!(c, '-');
        } else {
            assert!(c.is_ascii_hexdigit() && !c.is_ascii_uppercase());
        }
    }
}

#[test]
fn blank_ids_count_up() {
    let mut g = Blank::new_with_prefix((), "b".to_string());
    assert_eq!(g.next_blank_id(), "_:b0");
    assert_eq!(g.next_blank_id(), "_:b1");
    assert_eq!(g.count(), 2);
    let mut g = Blank::new_full(5u8, "x".to_string(), 41);
    assert_eq!(g.next(), (ValidId::Blank("_:x41".to_string()), 5u8));
    assert_eq!(g.prefix(), "x");
    assert_eq!(*g.metadata(), 5u8);
    let mut g = Blank::new(());
    assert_eq!(g.next_blank_id(), "_:0");
    let mut g = Blank::new_with_offset((), 10);
    assert_eq!(g.next_blank_id(), "_:10");
}

#[test]
fn blank_ids_are_distinct() {
    let mut g = Blank::new(());
    let ids: Vec<String> = (0..50).map(|_| g.next_blank_id()).collect();
    for i in 0..ids.len() {
        for j in 0..ids.len() {
            if i != j {
                assert_ne!(ids[i], ids[j]);
            }
        }
    }
}

#[test]
fn blank_count_after_calls() {
    let mut g = Blank::new_full((), "p".to_string(), 5);
    let mut seen = Vec::new();
    for _ in 0..4 {
        seen.push(g.next_blank_id());
    }
    assert_eq!(g.count(), 9);
    assert_eq!(seen, vec!["_:p5", "_:p6", "_:p7", "_:p8"]);
}

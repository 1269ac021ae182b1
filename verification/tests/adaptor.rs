use horned_owl::adaptor::{IRIMaybe, ResourceIdentifiable};
use horned_owl::io::rdf::reader::ParseError;
use horned_owl::model::entity::Build;

#[test]
fn building_from_resource_identifier() {
    let b = Build::new();

    let _iri = b.iri("http://www.example.com");
    assert!(true)
}

#[test]
fn authority_from_validated_resource_identifier() {
    let b = Build::new();

    let iri = b.iri("http://www.example.com");
    let res_identifier: IRIMaybe<String> = IRIMaybe::from(iri.0);

    // An identifier built from a string is unchecked.
    assert!(!res_identifier.is_validated());

    let validated_identifier = res_identifier.to_validated().unwrap();
    let inner_iri_ref = validated_identifier.get_validated().unwrap();

    assert_eq!(inner_iri_ref.authority(), Some("www.example.com".to_string()));
}

#[test]
fn an_iri_reference_is_validated() {
    let v = IRIMaybe::new_validated("http://www.example.com/a#b".to_string()).unwrap();
    assert!(v.is_validated());
    assert_eq!(v.get_inner(), "http://www.example.com/a#b");
    assert_eq!(v.get_validated().unwrap().as_str(), "http://www.example.com/a#b");
    assert_eq!(v.into_inner(), "http://www.example.com/a#b".to_string());
}

#[test]
fn a_relative_reference_is_validated_and_has_no_authority() {
    let v = IRIMaybe::new_validated("a/b".to_string()).unwrap();
    assert_eq!(v.get_validated().unwrap().authority(), None);
}

#[test]
fn text_that_is_no_iri_is_refused() {
    let r = IRIMaybe::new_validated("http://www.example.com/a b<>".to_string());
    match r {
        Err(ParseError::InvalidIRI(s)) => assert_eq!(s, "http://www.example.com/a b<>"),
        other => panic!("expected an invalid IRI, got {:?}", other),
    }
}

#[test]
fn validating_keeps_what_was_validated() {
    let v = IRIMaybe::new_validated("http://www.example.com".to_string()).unwrap();
    let again = v.to_validated().unwrap();
    assert!(again.is_validated());
    assert_eq!(again.get_inner(), "http://www.example.com");
}

#[test]
fn validating_refuses_unchecked_text_that_is_no_iri() {
    let u = IRIMaybe::new_unchecked("<>".to_string());
    assert!(!u.is_validated());
    assert!(u.get_validated().is_none());
    assert!(matches!(u.to_validated(), Err(ParseError::InvalidIRI(_))));
}

#[test]
fn identifiers_are_the_same_by_text() {
    let u = IRIMaybe::new_unchecked("http://www.example.com".to_string());
    let v = IRIMaybe::new_validated("http://www.example.com".to_string()).unwrap();
    let w = IRIMaybe::new_unchecked("http://www.example.org".to_string());
    assert!(u.same(&v));
    assert!(v.same(&u));
    assert!(!u.same(&w));
    assert!(u == v);
    assert!(u != w);
}

#[test]
fn the_default_identifier_is_empty_and_unchecked() {
    let d: IRIMaybe<String> = IRIMaybe::default();
    assert_eq!(d.get_inner(), "");
    assert!(!d.is_validated());
    assert_eq!("x".to_string().as_text(), "x");
}

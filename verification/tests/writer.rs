use horned_owl::io::rdf::reader::{parse, triples};
use horned_owl::model::axioms::Axiom;
use horned_owl::ontology::AnnotatedAxiom;
use horned_owl::io::rdf::term::{LiteralKind, Term, Triple};
use horned_owl::io::rdf::writer;
use horned_owl::io::rdf::writer::{render, write_triples, BlankNodeIdGenerator, WriteError};
use horned_owl::model::entity::{Build, IRI};
use horned_owl::ontology::Ontology;
use horned_owl::vocab::{OWL, RDF};

const ONT_OWL: &str = "<?xml version=\"1.0\"?>
<rdf:RDF xmlns=\"http://www.example.com/iri#\"
     xml:base=\"http://www.example.com/iri\"
     xmlns:owl=\"http://www.w3.org/2002/07/owl#\"
     xmlns:rdf=\"http://www.w3.org/1999/02/22-rdf-syntax-ns#\"
     xmlns:xml=\"http://www.w3.org/XML/1998/namespace\"
     xmlns:xsd=\"http://www.w3.org/2001/XMLSchema#\"
     xmlns:rdfs=\"http://www.w3.org/2000/01/rdf-schema#\">
    <owl:Ontology rdf:about=\"http://www.example.com/iri\">
        <owl:versionIRI rdf:resource=\"http://www.example.com/viri\"/>
    </owl:Ontology>
</rdf:RDF>
";

const IMPORT_OWL: &str = "<?xml version=\"1.0\"?>
<rdf:RDF xmlns=\"http://www.example.com/iri#\"
     xml:base=\"http://www.example.com/iri\"
     xmlns:owl=\"http://www.w3.org/2002/07/owl#\"
     xmlns:rdf=\"http://www.w3.org/1999/02/22-rdf-syntax-ns#\"
     xmlns:xml=\"http://www.w3.org/XML/1998/namespace\"
     xmlns:xsd=\"http://www.w3.org/2001/XMLSchema#\"
     xmlns:rdfs=\"http://www.w3.org/2000/01/rdf-schema#\">
    <owl:Ontology rdf:about=\"http://www.example.com/iri\">
        <owl:imports rdf:resource=\"http://www.example.com/import1\"/>
    </owl:Ontology>
</rdf:RDF>
";

fn document(path: &str) -> &'static str {
    match path {
        "../../ont/owl-rdf/ont.owl" => ONT_OWL,
        "../../ont/owl-rdf/import.owl" => IMPORT_OWL,
        other => panic!("no such document: {}", other),
    }
}

fn read_ok(bytes: &[u8]) -> Ontology {
    let r = triples(bytes);
    assert!(r.is_ok(), "Expected ontology, got failure:{:?}", r.err());
    let (o, incomplete) = parse(r.ok().unwrap(), &Build::new());
    assert!(incomplete.is_complete(), "Read Not Complete: {:#?}", incomplete);
    o
}

fn roundtrip(ont: &str) -> (Ontology, Ontology) {
    let ont_orig = read_ok(ont.as_bytes());
    let written = writer::write(&ont_orig).ok().unwrap();
    let ont_round = read_ok(&written);
    (ont_orig, ont_round)
}

fn assert_round(ont: &str) -> (Ontology, Ontology) {
    let (ont_orig, ont_round) = roundtrip(ont);
    assert_eq!(ont_orig, ont_round);
    (ont_orig, ont_round)
}

#[test]
fn test_ont_rt() {
    let mut ont = Ontology::new();
    let build = Build::new();

    let iri = build.iri("http://www.example.com/a");
    ont.id.iri = Some(iri);
    let written = writer::write(&ont).ok().unwrap();
    let ont2 = read_ok(&written);

    assert_eq!(ont.id.iri, ont2.id.iri);
}

#[test]
fn round_ont() {
    let (orig, _) = assert_round(document("../../ont/owl-rdf/ont.owl"));
    assert_eq!(orig.id.iri, Some(IRI("http://www.example.com/iri".to_string())));
    assert_eq!(orig.id.viri, Some(IRI("http://www.example.com/viri".to_string())));
}

#[test]
fn round_import() {
    let (orig, round) = assert_round(document("../../ont/owl-rdf/import.owl"));
    let import = AnnotatedAxiom::new(Axiom::Import(IRI("http://www.example.com/import1".to_string())));
    assert!(orig.contains(&import));
    assert!(round.contains(&import));
    assert_eq!(orig.len(), 1);
}

#[test]
fn imports_are_written_after_the_header() {
    let mut ont = Ontology::new();
    ont.id.iri = Some(IRI("http://www.example.com/a".to_string()));
    ont.insert(AnnotatedAxiom::new(Axiom::Import(IRI("http://www.example.com/b".to_string()))));
    ont.insert(AnnotatedAxiom::new(Axiom::DeclareClass(
        horned_owl::model::entity::Class(IRI("http://www.example.com/a#C".to_string())),
    )));
    ont.insert(AnnotatedAxiom::new(Axiom::Import(IRI("http://www.example.com/c".to_string()))));
    let triples = render(&ont);
    assert_eq!(triples.len(), 3);
    for (k, target) in ["http://www.example.com/b", "http://www.example.com/c"].iter().enumerate() {
        assert_eq!(
            triples[k + 1],
            Triple {
                subject: Term::Iri(IRI("http://www.example.com/a".to_string())),
                predicate: Term::OWL(OWL::Imports),
                object: Term::Iri(IRI(target.to_string())),
            }
        );
    }
    ont.id.iri = None;
    assert_eq!(render(&ont).len(), 0);
}

#[test]
fn writing_succeeds() {
    let mut ont = Ontology::new();
    assert!(writer::write(&ont).is_ok());
    ont.id.iri = Some(IRI("http://www.example.com/a".to_string()));
    ont.insert(AnnotatedAxiom::new(Axiom::Import(IRI("http://www.example.com/b".to_string()))));
    assert!(writer::write(&ont).is_ok());
    assert!(write_triples(&vec![]).is_ok());
}

#[test]
fn written_document_names_the_ontology() {
    let mut ont = Ontology::new();
    ont.id.iri = Some(IRI("http://www.example.com/a".to_string()));
    ont.id.viri = Some(IRI("http://www.example.com/a/1".to_string()));
    let written = String::from_utf8(writer::write(&ont).ok().unwrap()).unwrap();
    assert!(written.contains("rdf:about=\"http://www.example.com/a\""));
    assert!(written.contains("rdf:resource=\"http://www.w3.org/2002/07/owl#Ontology\""));
    assert!(written.contains("rdf:resource=\"http://www.example.com/a/1\""));
    assert!(written.contains("versionIRI"));
}

#[test]
fn render_gives_the_header_triples() {
    let mut ont = Ontology::new();
    assert_eq!(render(&ont).len(), 0);
    ont.id.viri = Some(IRI("http://www.example.com/v".to_string()));
    assert_eq!(render(&ont).len(), 0);
    ont.id.iri = Some(IRI("http://www.example.com/a".to_string()));
    let triples = render(&ont);
    assert_eq!(triples.len(), 2);
    assert_eq!(
        triples[0],
        Triple {
            subject: Term::Iri(IRI("http://www.example.com/a".to_string())),
            predicate: Term::RDF(RDF::Type),
            object: Term::OWL(OWL::Ontology),
        }
    );
    assert_eq!(
        triples[1],
        Triple {
            subject: Term::Iri(IRI("http://www.example.com/a".to_string())),
            predicate: Term::OWL(OWL::VersionIRI),
            object: Term::Iri(IRI("http://www.example.com/v".to_string())),
        }
    );
    ont.id.viri = None;
    assert_eq!(render(&ont).len(), 1);
}

#[test]
fn an_ontology_without_iri_writes_an_empty_document() {
    let ont = Ontology::new();
    let written = writer::write(&ont).ok().unwrap();
    let back = read_ok(&written);
    assert_eq!(back.id.iri, None);
    assert_eq!(back.id.viri, None);
    assert_eq!(back.len(), 0);
}

#[test]
fn a_literal_is_not_written() {
    let triples = vec![Triple {
        subject: Term::Iri(IRI("http://www.example.com/a".to_string())),
        predicate: Term::Iri(IRI("http://www.example.com/p".to_string())),
        object: Term::Literal("x".to_string(), LiteralKind::Lang("en".to_string())),
    }];
    assert!(matches!(write_triples(&triples), Err(WriteError::Unsupported)));
}

#[test]
fn a_blank_node_is_not_written() {
    let triples = vec![Triple {
        subject: Term::BNode("b".to_string()),
        predicate: Term::RDF(RDF::Type),
        object: Term::OWL(OWL::Class),
    }];
    assert!(matches!(write_triples(&triples), Err(WriteError::Unsupported)));
}

#[test]
fn written_triples_are_read_back() {
    let triples = vec![
        Triple {
            subject: Term::Iri(IRI("http://www.example.com/a".to_string())),
            predicate: Term::RDF(RDF::Type),
            object: Term::OWL(OWL::Ontology),
        },
        Triple {
            subject: Term::Iri(IRI("http://www.example.com/a#C".to_string())),
            predicate: Term::RDF(RDF::Type),
            object: Term::OWL(OWL::Class),
        },
    ];
    let written = write_triples(&triples).ok().unwrap();
    let back = read_ok(&written);
    assert_eq!(back.id.iri, Some(IRI("http://www.example.com/a".to_string())));
    assert_eq!(back.len(), 1);
}

#[test]
fn labels_count_from_one() {
    let mut g = BlankNodeIdGenerator::default();
    assert_eq!(g.generate().as_str(), "bn1");
    assert_eq!(g.generate().as_str(), "bn2");
    assert_eq!(g.i, 2);
}

#[test]
fn labels_use_decimal_numerals() {
    let mut g = BlankNodeIdGenerator { i: 9 };
    assert_eq!(g.generate().as_str(), "bn10");
    let mut g = BlankNodeIdGenerator { i: 1234567889 };
    assert_eq!(g.generate().as_str(), "bn1234567890");
    let mut g = BlankNodeIdGenerator { i: u64::MAX - 1 };
    assert_eq!(g.generate().as_str(), "bn18446744073709551615");
}

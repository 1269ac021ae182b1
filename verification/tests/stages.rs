use horned_owl::io::rdf::parser::{annotation, parse_annotations, OntologyParser};
use horned_owl::io::rdf::reader::{parse, read, ParseError};
use horned_owl::io::rdf::resolve::{to_iri, to_literal, to_u32};
use horned_owl::io::rdf::table::{put, take};
use horned_owl::io::rdf::term::{LiteralKind, Term, Triple};
use horned_owl::model::axioms::Axiom;
use horned_owl::model::entity::{AnnotationProperty, Build, Class, DataProperty, ObjectProperty, IRI};
use horned_owl::model::expression::{
    ClassExpression, DataRange, ObjectPropertyExpression, PropertyExpression,
    SubObjectPropertyExpression,
};
use horned_owl::model::literal::{Annotation, AnnotationValue, Literal};
use horned_owl::ontology::AnnotatedAxiom;
use horned_owl::vocab::{OWL, RDF, RDFS};

const EX: &str = "http://www.example.com/iri#";
const XSD_NS: &str = "http://www.w3.org/2001/XMLSchema#";

fn iri(local: &str) -> IRI {
    IRI(format!("{}{}", EX, local))
}

fn ex(local: &str) -> Term {
    Term::Iri(iri(local))
}

fn bnode(label: &str) -> Term {
    Term::BNode(label.to_string())
}

fn string(text: &str) -> Term {
    Term::Literal(text.to_string(), LiteralKind::Datatype(IRI(format!("{}string", XSD_NS))))
}

fn t(subject: Term, predicate: Term, object: Term) -> Triple {
    Triple { subject, predicate, object }
}

fn first(cell: &str, value: Term) -> Triple {
    t(bnode(cell), Term::RDF(RDF::First), value)
}

fn rest(cell: &str, next: Term) -> Triple {
    t(bnode(cell), Term::RDF(RDF::Rest), next)
}

#[test]
fn grouping_puts_each_triple_in_one_place() {
    let mut simple = vec![];
    let mut bnode_map = vec![];
    let triples = vec![
        t(bnode("b"), ex("p"), ex("x")),
        t(ex("a"), ex("p"), ex("x")),
        t(bnode("a"), ex("p"), ex("x")),
        t(bnode("b"), ex("q"), ex("y")),
        t(string("s"), ex("p"), ex("x")),
    ];
    OntologyParser::group_triples(triples.clone(), &mut simple, &mut bnode_map);
    assert_eq!(simple, vec![triples[1].clone(), triples[4].clone()]);
    assert_eq!(
        bnode_map,
        vec![
            ("b".to_string(), vec![triples[0].clone(), triples[3].clone()]),
            ("a".to_string(), vec![triples[2].clone()]),
        ]
    );
    OntologyParser::group_triples(vec![triples[2].clone()], &mut simple, &mut bnode_map);
    assert_eq!(simple.len(), 2);
    assert_eq!(bnode_map[1].1.len(), 2);
}

#[test]
fn stitching_builds_sequences_in_the_order_of_the_list() {
    let b = Build::new();
    let mut p = OntologyParser::new(&b);
    p.bnode = vec![
        ("h".to_string(), vec![first("h", ex("one")), rest("h", bnode("m"))]),
        ("m".to_string(), vec![first("m", ex("two")), rest("m", bnode("l"))]),
        ("l".to_string(), vec![first("l", ex("three")), rest("l", Term::RDF(RDF::Nil))]),
        ("x".to_string(), vec![first("x", ex("lost")), rest("x", bnode("nowhere"))]),
        ("y".to_string(), vec![t(bnode("y"), ex("p"), ex("o"))]),
    ];
    p.stitch_seqs();
    assert_eq!(
        p.tables.bnode_seq,
        vec![("h".to_string(), vec![ex("one"), ex("two"), ex("three")])]
    );
    assert_eq!(p.bnode.len(), 2);
    assert_eq!(p.bnode[0].0, "x");
    assert_eq!(p.bnode[1].0, "y");
}

#[test]
fn a_sequence_of_one_element() {
    let b = Build::new();
    let mut p = OntologyParser::new(&b);
    p.bnode =
        vec![("l".to_string(), vec![first("l", ex("only")), rest("l", Term::RDF(RDF::Nil))])];
    p.stitch_seqs();
    assert_eq!(p.tables.bnode_seq, vec![("l".to_string(), vec![ex("only")])]);
    assert!(p.bnode.is_empty());
}

#[test]
fn reifications_hand_their_target_on() {
    let b = Build::new();
    let mut p = OntologyParser::new(&b);
    let target = t(ex("A"), Term::RDFS(RDFS::SubClassOf), ex("B"));
    p.bnode = vec![
        (
            "x".to_string(),
            vec![
                t(bnode("x"), Term::OWL(OWL::AnnotatedProperty), Term::RDFS(RDFS::SubClassOf)),
                t(bnode("x"), Term::OWL(OWL::AnnotatedSource), ex("A")),
                t(bnode("x"), Term::OWL(OWL::AnnotatedTarget), ex("B")),
                t(bnode("x"), Term::RDF(RDF::Type), Term::OWL(OWL::Axiom)),
                t(bnode("x"), Term::RDFS(RDFS::Label), string("one")),
                t(bnode("x"), Term::RDFS(RDFS::Label), string("one")),
                t(bnode("x"), ex("note"), ex("N")),
            ],
        ),
        (
            "y".to_string(),
            vec![
                t(bnode("y"), Term::OWL(OWL::AnnotatedProperty), Term::RDFS(RDFS::SubClassOf)),
                t(bnode("y"), Term::OWL(OWL::AnnotatedSource), ex("A")),
                t(bnode("y"), Term::RDF(RDF::Type), Term::OWL(OWL::Axiom)),
            ],
        ),
    ];
    p.axiom_annotations();
    assert_eq!(p.simple, vec![target.clone()]);
    assert_eq!(p.bnode.len(), 1);
    assert_eq!(p.bnode[0].0, "y");
    assert_eq!(p.ann_map.len(), 1);
    assert_eq!(p.ann_map[0].0, target);
    let one = Annotation {
        ap: AnnotationProperty(IRI("http://www.w3.org/2000/01/rdf-schema#label".to_string())),
        av: AnnotationValue::Literal(Literal::Simple { literal: "one".to_string() }),
    };
    let note =
        Annotation { ap: AnnotationProperty(iri("note")), av: AnnotationValue::IRI(iri("N")) };
    assert_eq!(p.ann_map[0].1.len(), 2);
    assert!(p.ann_map[0].1.contains(&one));
    assert!(p.ann_map[0].1.contains(&note));
}

fn block(node: &str, annotations: Vec<Triple>) -> (String, Vec<Triple>) {
    let mut triples = vec![
        t(bnode(node), Term::OWL(OWL::AnnotatedProperty), Term::RDFS(RDFS::SubClassOf)),
        t(bnode(node), Term::OWL(OWL::AnnotatedSource), ex("A")),
        t(bnode(node), Term::OWL(OWL::AnnotatedTarget), ex("B")),
        t(bnode(node), Term::RDF(RDF::Type), Term::OWL(OWL::Axiom)),
    ];
    triples.extend(annotations);
    (node.to_string(), triples)
}

fn noted(property: &str, value: &str) -> Annotation {
    Annotation { ap: AnnotationProperty(iri(property)), av: AnnotationValue::IRI(iri(value)) }
}

#[test]
fn two_reifications_of_one_target_record_the_annotations_of_both() {
    let b = Build::new();
    let mut p = OntologyParser::new(&b);
    let target = t(ex("A"), Term::RDFS(RDFS::SubClassOf), ex("B"));
    let other = (
        "c".to_string(),
        vec![
            t(bnode("c"), Term::OWL(OWL::AnnotatedProperty), Term::RDFS(RDFS::SubClassOf)),
            t(bnode("c"), Term::OWL(OWL::AnnotatedSource), ex("A")),
            t(bnode("c"), Term::RDF(RDF::Type), Term::OWL(OWL::Axiom)),
        ],
    );
    p.bnode = vec![
        block("a", vec![t(bnode("a"), ex("p"), ex("one")), t(bnode("a"), ex("q"), ex("two"))]),
        other.clone(),
        block("b", vec![t(bnode("b"), ex("r"), ex("three"))]),
    ];
    p.axiom_annotations();
    assert_eq!(p.simple, vec![target.clone(), target.clone()]);
    assert_eq!(p.bnode, vec![other]);
    assert_eq!(p.ann_map.len(), 1);
    assert_eq!(p.ann_map[0].0, target);
    assert_eq!(p.ann_map[0].1.len(), 3);
    assert!(p.ann_map[0].1.contains(&noted("p", "one")));
    assert!(p.ann_map[0].1.contains(&noted("q", "two")));
    assert!(p.ann_map[0].1.contains(&noted("r", "three")));
}

#[test]
fn reifications_of_two_targets_are_recorded_apart() {
    let b = Build::new();
    let mut p = OntologyParser::new(&b);
    let first_target = t(ex("A"), Term::RDFS(RDFS::SubClassOf), ex("B"));
    let second_target = t(ex("C"), Term::RDFS(RDFS::SubClassOf), ex("B"));
    p.bnode = vec![
        block("a", vec![t(bnode("a"), ex("p"), ex("one"))]),
        (
            "d".to_string(),
            vec![
                t(bnode("d"), Term::OWL(OWL::AnnotatedProperty), Term::RDFS(RDFS::SubClassOf)),
                t(bnode("d"), Term::OWL(OWL::AnnotatedSource), ex("C")),
                t(bnode("d"), Term::OWL(OWL::AnnotatedTarget), ex("B")),
                t(bnode("d"), Term::RDF(RDF::Type), Term::OWL(OWL::Axiom)),
                t(bnode("d"), ex("q"), ex("two")),
            ],
        ),
        block("b", vec![t(bnode("b"), ex("p"), ex("one")), t(bnode("b"), ex("r"), ex("three"))]),
    ];
    p.axiom_annotations();
    assert_eq!(p.bnode.len(), 0);
    assert_eq!(p.ann_map.len(), 2);
    assert_eq!(p.ann_map[0].0, first_target);
    assert_eq!(p.ann_map[0].1, vec![noted("p", "one"), noted("r", "three")]);
    assert_eq!(p.ann_map[1].0, second_target);
    assert_eq!(p.ann_map[1].1, vec![noted("q", "two")]);
}

#[test]
fn a_reification_with_an_annotation_that_has_no_value_is_kept() {
    let b = Build::new();
    let mut p = OntologyParser::new(&b);
    p.bnode = vec![(
        "x".to_string(),
        vec![
            t(bnode("x"), Term::OWL(OWL::AnnotatedProperty), Term::RDFS(RDFS::SubClassOf)),
            t(bnode("x"), Term::OWL(OWL::AnnotatedSource), ex("A")),
            t(bnode("x"), Term::OWL(OWL::AnnotatedTarget), ex("B")),
            t(bnode("x"), Term::RDF(RDF::Type), Term::OWL(OWL::Axiom)),
            t(bnode("x"), Term::RDFS(RDFS::Label), bnode("z")),
        ],
    )];
    p.axiom_annotations();
    assert!(p.simple.is_empty());
    assert_eq!(p.bnode.len(), 1);
    assert!(p.ann_map.is_empty());
}

#[test]
fn annotations_are_read_from_triples() {
    let b = Build::new();
    let label = t(ex("A"), Term::RDFS(RDFS::Label), string("a"));
    assert_eq!(
        annotation(&b, &label),
        Some(Annotation {
            ap: AnnotationProperty(IRI("http://www.w3.org/2000/01/rdf-schema#label".to_string())),
            av: AnnotationValue::Literal(Literal::Simple { literal: "a".to_string() }),
        })
    );
    assert_eq!(annotation(&b, &t(ex("A"), Term::RDF(RDF::Type), ex("B"))), None);
    assert_eq!(annotation(&b, &t(ex("A"), ex("p"), bnode("b"))), None);
    assert_eq!(annotation(&b, &t(ex("A"), bnode("p"), ex("B"))), None);
    let triples = vec![label.clone(), t(ex("A"), ex("p"), ex("B")), label];
    assert_eq!(parse_annotations(&b, &triples, 0).unwrap().len(), 2);
    assert_eq!(parse_annotations(&b, &triples, 1).unwrap().len(), 2);
    assert_eq!(parse_annotations(&b, &triples, 2).unwrap().len(), 1);
    assert_eq!(parse_annotations(&b, &triples, 3), Some(vec![]));
    let broken = vec![t(ex("A"), ex("p"), bnode("b"))];
    assert_eq!(parse_annotations(&b, &broken, 0), None);
    assert_eq!(parse_annotations(&b, &broken, 1), Some(vec![]));
}

#[test]
fn terms_are_resolved_to_values() {
    let b = Build::new();
    assert_eq!(to_iri(&ex("a")), Some(iri("a")));
    assert_eq!(to_iri(&bnode("a")), None);
    assert_eq!(to_iri(&Term::OWL(OWL::Thing)), None);
    assert_eq!(to_u32(&string("12")), Some(12));
    assert_eq!(to_u32(&string("x")), None);
    assert_eq!(to_u32(&Term::Literal("12".to_string(), LiteralKind::Lang("en".to_string()))), None);
    assert_eq!(to_u32(&ex("12")), None);
    assert_eq!(to_literal(&b, &string("x")), Some(Literal::Simple { literal: "x".to_string() }));
    assert_eq!(
        to_literal(&b, &Term::Literal("x".to_string(), LiteralKind::Lang("en".to_string()))),
        Some(Literal::Language { literal: "x".to_string(), lang: "en".to_string() })
    );
    assert_eq!(
        to_literal(&b, &Term::Literal("1".to_string(), LiteralKind::Datatype(iri("int")))),
        Some(Literal::Datatype { literal: "1".to_string(), datatype_iri: iri("int") })
    );
    assert_eq!(to_literal(&b, &ex("x")), None);
}

#[test]
fn an_expression_has_one_parent() {
    let b = Build::new();
    let mut p = OntologyParser::new(&b);
    let c = ClassExpression::ObjectComplementOf(Box::new(ClassExpression::Class(Class(iri("C")))));
    put(&mut p.tables.class_expression, "n".to_string(), c.clone());
    assert_eq!(p.tables.to_ce(&bnode("n")), Some(c));
    assert_eq!(p.tables.to_ce(&bnode("n")), None);
    assert_eq!(p.tables.to_ce(&ex("C")), Some(ClassExpression::Class(Class(iri("C")))));
    assert_eq!(p.tables.to_ce(&string("C")), None);
    let d = DataRange::DataOneOf(vec![]);
    put(&mut p.tables.data_range, "d".to_string(), d.clone());
    put(&mut p.tables.data_range, "d".to_string(), d.clone());
    assert_eq!(p.tables.data_range.len(), 1);
    assert_eq!(p.tables.to_dr(&bnode("d")), Some(d));
    assert_eq!(p.tables.to_dr(&bnode("d")), None);
    assert_eq!(take(&mut p.tables.data_range, "d"), None);
}

#[test]
fn the_kind_of_a_property_comes_from_its_declaration() {
    let b = Build::new();
    let mut p = OntologyParser::new(&b);
    p.merge(AnnotatedAxiom::new(Axiom::DeclareObjectProperty(ObjectProperty(iri("o")))));
    p.merge(AnnotatedAxiom::new(Axiom::DeclareDataProperty(DataProperty(iri("d")))));
    p.merge(AnnotatedAxiom::new(Axiom::DeclareAnnotationProperty(AnnotationProperty(iri("a")))));
    p.merge(AnnotatedAxiom::new(Axiom::DeclareClass(Class(iri("c")))));
    let inverse = ObjectPropertyExpression::InverseObjectProperty(ObjectProperty(iri("o")));
    put(&mut p.tables.object_property_expression, "i".to_string(), inverse.clone());
    let o = &p.o;
    assert_eq!(
        p.tables.find_property_kind(o, &ex("o")),
        Some(PropertyExpression::ObjectPropertyExpression(
            ObjectPropertyExpression::ObjectProperty(ObjectProperty(iri("o")))
        ))
    );
    assert_eq!(
        p.tables.find_property_kind(o, &ex("d")),
        Some(PropertyExpression::DataProperty(DataProperty(iri("d"))))
    );
    assert_eq!(
        p.tables.find_property_kind(o, &ex("a")),
        Some(PropertyExpression::AnnotationProperty(AnnotationProperty(iri("a"))))
    );
    assert_eq!(p.tables.find_property_kind(o, &ex("c")), None);
    assert_eq!(p.tables.find_property_kind(o, &ex("unknown")), None);
    assert_eq!(p.tables.to_ap(o, &ex("o")), None);
    assert_eq!(p.tables.to_dp(o, &ex("d")), Some(DataProperty(iri("d"))));
    assert_eq!(
        p.tables.to_sope(o, &bnode("i")),
        Some(SubObjectPropertyExpression::ObjectPropertyExpression(inverse))
    );
    assert_eq!(p.tables.to_ope(o, &bnode("i")), None);
}

#[test]
fn what_is_left_is_reported_as_unrecognised() {
    let b = Build::new();
    let (_, left) = parse(
        vec![
            t(bnode("b"), ex("q"), ex("y")),
            t(ex("x"), ex("p"), ex("y")),
            t(bnode("b"), ex("p"), ex("y")),
        ],
        &b,
    );
    let reports = left.unrecognised();
    assert_eq!(reports.len(), 3);
    match &reports[0] {
        ParseError::Unrecognised(triple) => assert_eq!(*triple, t(ex("x"), ex("p"), ex("y"))),
        other => panic!("unexpected: {:?}", other),
    }
    match &reports[1] {
        ParseError::Unrecognised(triple) => assert_eq!(*triple, t(bnode("b"), ex("p"), ex("y"))),
        other => panic!("unexpected: {:?}", other),
    }
    match &reports[2] {
        ParseError::Unrecognised(triple) => assert_eq!(*triple, t(bnode("b"), ex("q"), ex("y"))),
        other => panic!("unexpected: {:?}", other),
    }
}

#[test]
fn reading_gives_an_empty_prefix_mapping() {
    let doc = "<rdf:RDF xmlns:rdf=\"http://www.w3.org/1999/02/22-rdf-syntax-ns#\" xmlns:ex=\"http://www.example.com/iri#\"><rdf:Description rdf:about=\"http://www.example.com/iri#a\"><ex:p rdf:resource=\"http://www.example.com/iri#b\"/></rdf:Description></rdf:RDF>";
    let (_, mapping) = read(doc.as_bytes()).unwrap();
    assert_eq!(mapping.mappings().count(), 0);
    assert!(mapping.expand_curie_string("a").is_err());
    assert!(mapping.expand_curie_string("ex:a").is_err());
}

use horned_owl::io::rdf::order::{order_term, order_triple};
use horned_owl::io::rdf::parser::OntologyParser;
use horned_owl::io::rdf::reader::{parse, read, read_with_build, triples, ParseError};
use horned_owl::io::rdf::screen::is_supported;
use horned_owl::io::rdf::sort::sort_triples;
use horned_owl::io::rdf::term::{to_term, LiteralKind, Term, Triple};
use horned_owl::model::axioms::Axiom;
use horned_owl::model::entity::{
    AnnotationProperty, Build, Class, DataProperty, Datatype, ObjectProperty, IRI,
};
use horned_owl::model::expression::{ClassExpression, DataRange, ObjectPropertyExpression};
use horned_owl::model::literal::{Annotation, AnnotationValue, Literal};
use horned_owl::ontology::{
    find_declaration_kind, is_annotation_property, update_logically_equal_axiom, AnnotatedAxiom,
    NamedEntityKind, Ontology,
};
use horned_owl::text::{decimal, order_text, parse_u32, same_text, Sign};
use horned_owl::vocab::{OWL, RDF, RDFS};

const EX: &str = "http://www.example.com/iri#";
const OWL_NS: &str = "http://www.w3.org/2002/07/owl#";
const RDF_NS: &str = "http://www.w3.org/1999/02/22-rdf-syntax-ns#";
const RDFS_NS: &str = "http://www.w3.org/2000/01/rdf-schema#";
const XSD_NS: &str = "http://www.w3.org/2001/XMLSchema#";

fn ex(local: &str) -> Term {
    Term::Iri(IRI(format!("{}{}", EX, local)))
}

fn iri(local: &str) -> IRI {
    IRI(format!("{}{}", EX, local))
}

fn owl(local: &str) -> Term {
    Term::Iri(IRI(format!("{}{}", OWL_NS, local)))
}

fn rdf(local: &str) -> Term {
    Term::Iri(IRI(format!("{}{}", RDF_NS, local)))
}

fn rdfs(local: &str) -> Term {
    Term::Iri(IRI(format!("{}{}", RDFS_NS, local)))
}

fn xsd(local: &str) -> Term {
    Term::Iri(IRI(format!("{}{}", XSD_NS, local)))
}

fn bnode(label: &str) -> Term {
    Term::BNode(label.to_string())
}

fn string(text: &str) -> Term {
    Term::Literal(text.to_string(), LiteralKind::Datatype(IRI(format!("{}string", XSD_NS))))
}

fn number(text: &str) -> Term {
    Term::Literal(
        text.to_string(),
        LiteralKind::Datatype(IRI(format!("{}nonNegativeInteger", XSD_NS))),
    )
}

fn t(subject: Term, predicate: Term, object: Term) -> Triple {
    Triple { subject, predicate, object }
}

fn ce(local: &str) -> ClassExpression {
    ClassExpression::Class(Class(iri(local)))
}

fn ope(local: &str) -> ObjectPropertyExpression {
    ObjectPropertyExpression::ObjectProperty(ObjectProperty(iri(local)))
}

fn plain(ax: Axiom) -> AnnotatedAxiom {
    AnnotatedAxiom::new(ax)
}

fn label(text: &str) -> Annotation {
    Annotation {
        ap: AnnotationProperty(IRI(format!("{}label", RDFS_NS))),
        av: AnnotationValue::Literal(Literal::Simple { literal: text.to_string() }),
    }
}

fn ontology_triple() -> Triple {
    t(ex("O"), rdf("type"), owl("Ontology"))
}

fn expect(iri_of: Option<&str>, axioms: Vec<AnnotatedAxiom>) -> Ontology {
    let mut o = Ontology::new();
    o.id.iri = iri_of.map(|i| iri(i));
    for ax in axioms {
        o.insert(ax);
    }
    o
}

fn parsed(triples: Vec<Triple>) -> Ontology {
    let b = Build::new();
    let (o, residual) = parse(triples, &b);
    assert!(residual.is_complete(), "left over: {:?}", residual);
    o
}

fn list(head: &str, members: Vec<Term>) -> Vec<Triple> {
    let mut out = vec![];
    let n = members.len();
    for (i, m) in members.into_iter().enumerate() {
        let cell = if i == 0 { bnode(head) } else { bnode(&format!("{}{}", head, i)) };
        let rest =
            if i + 1 == n { rdf("nil") } else { bnode(&format!("{}{}", head, i + 1)) };
        out.push(t(cell.clone(), rdf("first"), m));
        out.push(t(cell, rdf("rest"), rest));
    }
    out
}

fn permutations(items: &[Triple]) -> Vec<Vec<Triple>> {
    if items.len() <= 1 {
        return vec![items.to_vec()];
    }
    let mut out = vec![];
    for i in 0..items.len() {
        let mut rest = items.to_vec();
        let x = rest.remove(i);
        for mut p in permutations(&rest) {
            p.insert(0, x.clone());
            out.push(p);
        }
    }
    out
}

#[test]
fn class_declaration() {
    let o = parsed(vec![t(ex("A"), rdf("type"), owl("Class")), ontology_triple()]);
    assert_eq!(o, expect(Some("O"), vec![plain(Axiom::DeclareClass(Class(iri("A"))))]));
    assert_eq!(o.len(), 1);
}

#[test]
fn sub_class_of() {
    let o = parsed(vec![
        t(ex("A"), rdf("type"), owl("Class")),
        ontology_triple(),
        t(ex("A"), rdfs("subClassOf"), ex("B")),
    ]);
    assert!(o.contains(&plain(Axiom::SubClassOf { sub: ce("A"), sup: ce("B") })));
    assert!(o.contains(&plain(Axiom::DeclareClass(Class(iri("A"))))));
    assert_eq!(o.len(), 2);
}

#[test]
fn some_values_from_in_any_order() {
    let triples = vec![
        t(ex("p"), rdf("type"), owl("ObjectProperty")),
        t(ex("A"), rdfs("subClassOf"), bnode("r")),
        t(bnode("r"), rdf("type"), owl("Restriction")),
        t(bnode("r"), owl("onProperty"), ex("p")),
        t(bnode("r"), owl("someValuesFrom"), ex("B")),
    ];
    let expected = expect(
        None,
        vec![
            plain(Axiom::DeclareObjectProperty(ObjectProperty(iri("p")))),
            plain(Axiom::SubClassOf {
                sub: ce("A"),
                sup: ClassExpression::ObjectSomeValuesFrom {
                    ope: ope("p"),
                    bce: Box::new(ce("B")),
                },
            }),
        ],
    );
    for p in permutations(&triples) {
        assert_eq!(parsed(p), expected);
    }
}

#[test]
fn intersection_keeps_the_order_of_its_list() {
    let mut triples = vec![
        t(ex("A"), rdfs("subClassOf"), bnode("c")),
        t(bnode("c"), rdf("type"), owl("Class")),
        t(bnode("c"), owl("intersectionOf"), bnode("l")),
    ];
    triples.extend(list("l", vec![ex("E2"), ex("E1")]));
    let o = parsed(triples);
    assert_eq!(
        o,
        expect(
            None,
            vec![plain(Axiom::SubClassOf {
                sub: ce("A"),
                sup: ClassExpression::ObjectIntersectionOf(vec![ce("E2"), ce("E1")]),
            })]
        )
    );
    assert!(!o.contains(&plain(Axiom::SubClassOf {
        sub: ce("A"),
        sup: ClassExpression::ObjectIntersectionOf(vec![ce("E1"), ce("E2")]),
    })));
}

#[test]
fn long_lists_are_stitched() {
    let names = ["E1", "E2", "E3", "E4", "E5", "E6", "E7"];
    let mut triples = vec![
        t(ex("A"), rdfs("subClassOf"), bnode("c")),
        t(bnode("c"), rdf("type"), owl("Class")),
        t(bnode("c"), owl("unionOf"), bnode("l")),
    ];
    triples.extend(list("l", names.iter().map(|n| ex(n)).collect()));
    triples.reverse();
    let o = parsed(triples);
    assert_eq!(
        o,
        expect(
            None,
            vec![plain(Axiom::SubClassOf {
                sub: ce("A"),
                sup: ClassExpression::ObjectUnionOf(names.iter().map(|n| ce(n)).collect()),
            })]
        )
    );
}

fn reification(node: &str, annotation: Triple) -> Vec<Triple> {
    vec![
        t(bnode(node), rdf("type"), owl("Axiom")),
        t(bnode(node), owl("annotatedSource"), ex("A")),
        t(bnode(node), owl("annotatedProperty"), rdfs("subClassOf")),
        t(bnode(node), owl("annotatedTarget"), ex("B")),
        annotation,
    ]
}

#[test]
fn reified_annotation() {
    let mut triples = vec![t(ex("A"), rdfs("subClassOf"), ex("B"))];
    triples.extend(reification("x", t(bnode("x"), rdfs("label"), string("x"))));
    let o = parsed(triples);
    assert_eq!(
        o,
        expect(
            None,
            vec![AnnotatedAxiom {
                ax: Axiom::SubClassOf { sub: ce("A"), sup: ce("B") },
                ann: vec![label("x")],
            }]
        )
    );
    assert_eq!(o.len(), 1);
}

#[test]
fn annotations_of_one_axiom_are_merged() {
    let mut triples = vec![t(ex("A"), rdfs("subClassOf"), ex("B"))];
    triples.extend(reification("x", t(bnode("x"), rdfs("label"), string("x"))));
    let b = Build::new();
    let (mut first, _) = parse(triples, &b);
    let mut more = reification("y", t(bnode("y"), rdfs("label"), string("y")));
    more.push(t(ex("A"), rdfs("subClassOf"), ex("B")));
    let (second, _) = parse(more, &b);
    for ax in second.axioms {
        update_logically_equal_axiom(&mut first, ax);
    }
    assert_eq!(first.len(), 1);
    assert_eq!(
        first,
        expect(
            None,
            vec![AnnotatedAxiom {
                ax: Axiom::SubClassOf { sub: ce("A"), sup: ce("B") },
                ann: vec![label("y"), label("x")],
            }]
        )
    );
}

#[test]
fn merging_unions_annotations_and_keeps_one_axiom() {
    let mut o = Ontology::new();
    let ax = || Axiom::SubClassOf { sub: ce("A"), sup: ce("B") };
    assert!(!update_logically_equal_axiom(&mut o, AnnotatedAxiom { ax: ax(), ann: vec![label("x")] }));
    assert!(update_logically_equal_axiom(&mut o, AnnotatedAxiom { ax: ax(), ann: vec![label("y")] }));
    assert!(update_logically_equal_axiom(&mut o, AnnotatedAxiom { ax: ax(), ann: vec![label("x")] }));
    assert_eq!(o.len(), 1);
    assert!(o.contains(&AnnotatedAxiom { ax: ax(), ann: vec![label("y"), label("x")] }));
    assert!(!o.contains(&AnnotatedAxiom { ax: ax(), ann: vec![label("x")] }));
}

#[test]
fn inserting_keeps_axioms_with_other_annotations_apart() {
    let mut o = Ontology::new();
    let ax = || Axiom::SubClassOf { sub: ce("A"), sup: ce("B") };
    assert!(o.insert(plain(ax())));
    assert!(!o.insert(plain(ax())));
    assert!(o.insert(AnnotatedAxiom { ax: ax(), ann: vec![label("x")] }));
    assert!(!o.insert(AnnotatedAxiom { ax: ax(), ann: vec![label("x"), label("x")] }));
    assert_eq!(o.len(), 2);
}

#[test]
fn in_or_merge_inserts_what_has_no_annotation() {
    let b = Build::new();
    let mut p = OntologyParser::new(&b);
    let ax = || Axiom::SubClassOf { sub: ce("A"), sup: ce("B") };
    p.in_or_merge(AnnotatedAxiom { ax: ax(), ann: vec![label("x")] });
    p.in_or_merge(plain(ax()));
    assert_eq!(p.o.len(), 2);
    p.in_or_merge(AnnotatedAxiom { ax: ax(), ann: vec![label("y")] });
    assert_eq!(p.o.len(), 2);
    assert!(p.o.contains(&AnnotatedAxiom { ax: ax(), ann: vec![label("x"), label("y")] }));
    assert!(p.o.contains(&plain(ax())));
}

#[test]
fn functional_data_property() {
    let o = parsed(vec![
        t(ex("dp"), rdf("type"), owl("DatatypeProperty")),
        t(ex("dp"), rdf("type"), owl("FunctionalProperty")),
    ]);
    assert_eq!(
        o,
        expect(
            None,
            vec![
                plain(Axiom::DeclareDataProperty(DataProperty(iri("dp")))),
                plain(Axiom::FunctionalDataProperty(DataProperty(iri("dp")))),
            ]
        )
    );
    assert!(!o.contains(&plain(Axiom::FunctionalObjectProperty(ope("dp")))));
}

#[test]
fn the_order_of_the_triples_does_not_matter() {
    let mut triples = vec![
        ontology_triple(),
        t(ex("O"), owl("versionIRI"), ex("O1")),
        t(ex("A"), rdf("type"), owl("Class")),
        t(ex("p"), rdf("type"), owl("ObjectProperty")),
        t(ex("A"), rdfs("subClassOf"), bnode("r")),
        t(bnode("r"), rdf("type"), owl("Restriction")),
        t(bnode("r"), owl("onProperty"), ex("p")),
        t(bnode("r"), owl("allValuesFrom"), bnode("n")),
        t(bnode("n"), rdf("type"), owl("Class")),
        t(bnode("n"), owl("complementOf"), ex("B")),
        t(ex("A"), rdfs("label"), string("a")),
        t(ex("x"), ex("unknown"), ex("y")),
    ];
    let b = Build::new();
    let (first, first_left) = parse(triples.clone(), &b);
    assert_eq!(first.len(), 4);
    assert_eq!(first.id.viri, Some(iri("O1")));
    triples.reverse();
    let (second, second_left) = parse(triples.clone(), &b);
    assert_eq!(first, second);
    assert_eq!(first.axioms, second.axioms);
    assert_eq!(first_left.simple, second_left.simple);
    triples.rotate_left(5);
    triples.swap(0, 3);
    let (third, _) = parse(triples, &b);
    assert_eq!(first, third);
    assert_eq!(first.axioms, third.axioms);
}

#[test]
fn what_is_not_recognised_is_left_over() {
    let b = Build::new();
    let (o, left) = parse(
        vec![
            t(ex("x"), ex("unknown"), ex("y")),
            t(bnode("b"), ex("unknown"), ex("y")),
            t(ex("A"), rdf("type"), owl("Class")),
        ],
        &b,
    );
    assert_eq!(o.len(), 1);
    assert!(!left.is_complete());
    assert_eq!(left.simple, vec![t(ex("x"), ex("unknown"), ex("y"))]);
    assert_eq!(left.bnode, vec![("b".to_string(), vec![t(bnode("b"), ex("unknown"), ex("y"))])]);
}

#[test]
fn a_restriction_on_an_undeclared_property_is_left_over() {
    let b = Build::new();
    let (o, left) = parse(
        vec![
            t(ex("A"), rdfs("subClassOf"), bnode("r")),
            t(bnode("r"), rdf("type"), owl("Restriction")),
            t(bnode("r"), owl("onProperty"), ex("p")),
            t(bnode("r"), owl("someValuesFrom"), ex("B")),
        ],
        &b,
    );
    assert_eq!(o.len(), 0);
    assert!(!left.is_complete());
    assert_eq!(left.simple.len(), 1);
    assert_eq!(left.bnode.len(), 1);
    assert_eq!(left.bnode[0].1.len(), 3);
}

#[test]
fn an_empty_graph_gives_an_empty_ontology() {
    let b = Build::new();
    let (o, left) = parse(vec![], &b);
    assert_eq!(o, Ontology::new());
    assert!(left.is_complete());
}

#[test]
fn the_last_ontology_gives_the_header() {
    let o = parsed(vec![
        t(ex("O2"), rdf("type"), owl("Ontology")),
        t(ex("O1"), rdf("type"), owl("Ontology")),
        t(ex("O2"), owl("versionIRI"), ex("V2")),
    ]);
    assert_eq!(o.id.iri, Some(iri("O2")));
    assert_eq!(o.id.viri, Some(iri("V2")));
}

#[test]
fn the_version_of_another_ontology_is_left_over() {
    let b = Build::new();
    let (o, left) = parse(
        vec![ontology_triple(), t(ex("P"), owl("versionIRI"), ex("V"))],
        &b,
    );
    assert_eq!(o.id.iri, Some(iri("O")));
    assert_eq!(o.id.viri, None);
    assert_eq!(left.simple.len(), 1);
}

#[test]
fn nested_expressions_are_built_innermost_first() {
    let o = parsed(vec![
        t(ex("p"), rdf("type"), owl("ObjectProperty")),
        t(ex("A"), rdfs("subClassOf"), bnode("a")),
        t(bnode("a"), rdf("type"), owl("Restriction")),
        t(bnode("a"), owl("onProperty"), ex("p")),
        t(bnode("a"), owl("someValuesFrom"), bnode("b")),
        t(bnode("b"), rdf("type"), owl("Restriction")),
        t(bnode("b"), owl("onProperty"), ex("p")),
        t(bnode("b"), owl("allValuesFrom"), bnode("c")),
        t(bnode("c"), rdf("type"), owl("Class")),
        t(bnode("c"), owl("complementOf"), bnode("d")),
        t(bnode("d"), rdf("type"), owl("Restriction")),
        t(bnode("d"), owl("onProperty"), ex("p")),
        t(bnode("d"), owl("hasValue"), ex("i")),
    ]);
    let innermost =
        ClassExpression::ObjectHasValue { ope: ope("p"), i: horned_owl::model::entity::NamedIndividual(iri("i")) };
    let complement = ClassExpression::ObjectComplementOf(Box::new(innermost));
    let only = ClassExpression::ObjectAllValuesFrom { ope: ope("p"), bce: Box::new(complement) };
    let some = ClassExpression::ObjectSomeValuesFrom { ope: ope("p"), bce: Box::new(only) };
    assert!(o.contains(&plain(Axiom::SubClassOf { sub: ce("A"), sup: some })));
    assert_eq!(o.len(), 2);
}

#[test]
fn data_ranges_of_every_shape() {
    let mut triples = vec![
        t(ex("D"), rdf("type"), rdfs("Datatype")),
        t(ex("D"), owl("equivalentClass"), bnode("u")),
        t(bnode("u"), rdf("type"), rdfs("Datatype")),
        t(bnode("u"), owl("unionOf"), bnode("l")),
        t(bnode("c"), rdf("type"), rdfs("Datatype")),
        t(bnode("c"), owl("datatypeComplementOf"), xsd("integer")),
        t(bnode("e"), rdf("type"), rdfs("Datatype")),
        t(bnode("e"), owl("oneOf"), bnode("m")),
    ];
    triples.extend(list("l", vec![bnode("c"), bnode("e")]));
    triples.extend(list("m", vec![string("a"), number("1")]));
    let o = parsed(triples);
    let complement = DataRange::DataComplementOf(Box::new(DataRange::Datatype(Datatype(IRI(
        format!("{}integer", XSD_NS),
    )))));
    let one_of = DataRange::DataOneOf(vec![
        Literal::Simple { literal: "a".to_string() },
        Literal::Datatype {
            literal: "1".to_string(),
            datatype_iri: IRI(format!("{}nonNegativeInteger", XSD_NS)),
        },
    ]);
    assert!(o.contains(&plain(Axiom::DatatypeDefinition {
        kind: Datatype(iri("D")),
        range: DataRange::DataUnionOf(vec![complement, one_of]),
    })));
}

#[test]
fn data_cardinalities() {
    let restriction = |node: &str, bound: &str| {
        vec![
            t(ex("A"), rdfs("subClassOf"), bnode(node)),
            t(bnode(node), rdf("type"), owl("Restriction")),
            t(bnode(node), owl("onProperty"), ex("dp")),
            t(bnode(node), owl("onDataRange"), xsd("integer")),
            t(bnode(node), owl(bound), number("2")),
        ]
    };
    let mut triples = restriction("a", "minQualifiedCardinality");
    triples.extend(restriction("b", "maxQualifiedCardinality"));
    triples.extend(restriction("c", "qualifiedCardinality"));
    let o = parsed(triples);
    let dr = || DataRange::Datatype(Datatype(IRI(format!("{}integer", XSD_NS))));
    let dp = || DataProperty(iri("dp"));
    assert!(o.contains(&plain(Axiom::SubClassOf {
        sub: ce("A"),
        sup: ClassExpression::DataMinCardinality { n: 2, dp: dp(), dr: dr() },
    })));
    assert!(o.contains(&plain(Axiom::SubClassOf {
        sub: ce("A"),
        sup: ClassExpression::DataMaxCardinality { n: 2, dp: dp(), dr: dr() },
    })));
    assert!(o.contains(&plain(Axiom::SubClassOf {
        sub: ce("A"),
        sup: ClassExpression::DataExactCardinality { n: 2, dp: dp(), dr: dr() },
    })));
    assert_eq!(o.len(), 3);
}

#[test]
fn a_cardinality_that_is_no_number_is_left_over() {
    let b = Build::new();
    let (o, left) = parse(
        vec![
            t(ex("A"), rdfs("subClassOf"), bnode("r")),
            t(bnode("r"), rdf("type"), owl("Restriction")),
            t(bnode("r"), owl("onProperty"), ex("p")),
            t(bnode("r"), owl("maxCardinality"), number("many")),
        ],
        &b,
    );
    assert_eq!(o.len(), 0);
    assert!(!left.is_complete());
}

#[test]
fn sub_properties_of_each_kind() {
    let o = parsed(vec![
        t(ex("d1"), rdf("type"), owl("DatatypeProperty")),
        t(ex("d2"), rdf("type"), owl("DatatypeProperty")),
        t(ex("d1"), rdfs("subPropertyOf"), ex("d2")),
        t(ex("a1"), rdf("type"), owl("AnnotationProperty")),
        t(ex("a2"), rdf("type"), owl("AnnotationProperty")),
        t(ex("a1"), rdfs("subPropertyOf"), ex("a2")),
    ]);
    assert!(o.contains(&plain(Axiom::SubDataPropertyOf {
        sup: DataProperty(iri("d2")),
        sub: DataProperty(iri("d1")),
    })));
    assert!(o.contains(&plain(Axiom::SubAnnotationPropertyOf {
        sup: AnnotationProperty(iri("a2")),
        sub: AnnotationProperty(iri("a1")),
    })));
    assert_eq!(o.len(), 6);
}

#[test]
fn a_sub_property_of_another_kind_is_left_over() {
    let b = Build::new();
    let (o, left) = parse(
        vec![
            t(ex("d"), rdf("type"), owl("DatatypeProperty")),
            t(ex("p"), rdf("type"), owl("ObjectProperty")),
            t(ex("d"), rdfs("subPropertyOf"), ex("p")),
        ],
        &b,
    );
    assert_eq!(o.len(), 2);
    assert_eq!(left.simple.len(), 1);
}

#[test]
fn version_info_is_an_annotation() {
    let o = parsed(vec![t(ex("A"), owl("versionInfo"), string("1.0"))]);
    assert!(o.contains(&plain(Axiom::AnnotationAssertion {
        subject: iri("A"),
        ann: Annotation {
            ap: AnnotationProperty(IRI(format!("{}versionInfo", OWL_NS))),
            av: AnnotationValue::Literal(Literal::Simple { literal: "1.0".to_string() }),
        },
    })));
}

#[test]
fn an_annotation_with_an_iri_value() {
    let o = parsed(vec![t(ex("A"), rdfs("seeAlso"), ex("B"))]);
    assert!(o.contains(&plain(Axiom::AnnotationAssertion {
        subject: iri("A"),
        ann: Annotation {
            ap: AnnotationProperty(IRI(format!("{}seeAlso", RDFS_NS))),
            av: AnnotationValue::IRI(iri("B")),
        },
    })));
}

#[test]
fn the_last_declaration_gives_the_kind() {
    let mut o = Ontology::new();
    o.insert(plain(Axiom::DeclareClass(Class(iri("x")))));
    o.insert(plain(Axiom::DeclareAnnotationProperty(AnnotationProperty(iri("x")))));
    o.insert(plain(Axiom::DeclareObjectProperty(ObjectProperty(iri("y")))));
    assert_eq!(find_declaration_kind(&o, &iri("x")), Some(NamedEntityKind::AnnotationProperty));
    assert_eq!(find_declaration_kind(&o, &iri("y")), Some(NamedEntityKind::ObjectProperty));
    assert_eq!(find_declaration_kind(&o, &iri("z")), None);
    assert!(is_annotation_property(&o, &iri("x")));
    assert!(!is_annotation_property(&o, &iri("y")));
    update_logically_equal_axiom(&mut o, plain(Axiom::DeclareClass(Class(iri("x")))));
    assert_eq!(find_declaration_kind(&o, &iri("x")), Some(NamedEntityKind::Class));
}

#[test]
fn terms_of_the_vocabularies_become_tokens() {
    assert_eq!(to_term(&owl("Class")), Term::OWL(OWL::Class));
    assert_eq!(to_term(&owl("onProperty")), Term::OWL(OWL::OnProperty));
    assert_eq!(to_term(&rdf("type")), Term::RDF(RDF::Type));
    assert_eq!(to_term(&rdf("nil")), Term::RDF(RDF::Nil));
    assert_eq!(to_term(&rdfs("subClassOf")), Term::RDFS(RDFS::SubClassOf));
    assert_eq!(to_term(&ex("Class")), ex("Class"));
    assert_eq!(to_term(&owl("Klass")), owl("Klass"));
    assert_eq!(to_term(&bnode("b")), bnode("b"));
    assert_eq!(to_term(&string("x")), string("x"));
    assert_eq!(to_term(&Term::RDFS(RDFS::Label)), Term::RDFS(RDFS::Label));
    assert_eq!(OWL::lookup("http://www.w3.org/2002/07/owl#Thing"), Some(OWL::Thing));
    assert_eq!(OWL::lookup("http://www.w3.org/2002/07/owl#thing"), None);
    assert_eq!(OWL::all().len(), 61);
    for v in OWL::all() {
        assert_eq!(OWL::lookup(v.iri_str()), Some(v));
    }
    for v in RDF::all() {
        assert_eq!(RDF::lookup(v.iri_str()), Some(v));
    }
    for v in RDFS::all() {
        assert_eq!(RDFS::lookup(v.iri_str()), Some(v));
    }
    assert!(RDFS::Label.is_builtin());
    assert!(!RDFS::SubClassOf.is_builtin());
}

#[test]
fn terms_are_ordered_by_kind_then_value() {
    let ordered = vec![
        Term::OWL(OWL::AllValuesFrom),
        Term::OWL(OWL::OnProperty),
        Term::OWL(OWL::SomeValuesFrom),
        Term::RDF(RDF::First),
        Term::RDF(RDF::Rest),
        Term::RDF(RDF::Type),
        Term::RDFS(RDFS::Comment),
        ex("a"),
        ex("b"),
        bnode("a"),
        bnode("b"),
        Term::Literal("a".to_string(), LiteralKind::Lang("en".to_string())),
        Term::Literal("a".to_string(), LiteralKind::Lang("fr".to_string())),
        string("a"),
        string("b"),
        Term::Variable("a".to_string()),
    ];
    for i in 0..ordered.len() {
        for j in 0..ordered.len() {
            let expected = if i < j {
                Sign::Less
            } else if i > j {
                Sign::Greater
            } else {
                Sign::Equal
            };
            assert_eq!(order_term(&ordered[i], &ordered[j]), expected, "{} {}", i, j);
        }
    }
}

#[test]
fn triples_are_sorted_into_one_order() {
    let triples = vec![
        t(bnode("r"), rdf("type"), owl("Restriction")),
        t(ex("b"), rdf("type"), owl("Class")),
        t(bnode("r"), owl("someValuesFrom"), ex("B")),
        t(ex("a"), rdfs("label"), string("x")),
        t(bnode("r"), owl("onProperty"), ex("p")),
        t(ex("a"), rdf("type"), owl("Class")),
        t(ex("a"), rdf("type"), owl("Class")),
    ];
    let classified: Vec<Triple> = triples
        .iter()
        .map(|x| t(to_term(&x.subject), to_term(&x.predicate), to_term(&x.object)))
        .collect();
    let sorted = sort_triples(classified.clone());
    assert_eq!(sorted.len(), 7);
    for w in sorted.windows(2) {
        assert!(order_triple(&w[0], &w[1]) != Sign::Greater);
    }
    assert_eq!(sorted[0], classified[5]);
    assert_eq!(sorted[1], classified[5]);
    assert_eq!(sorted[2], classified[3]);
    assert_eq!(sorted[3], classified[1]);
    assert_eq!(sorted[4], classified[4]);
    assert_eq!(sorted[5], classified[2]);
    assert_eq!(sorted[6], classified[0]);
    let mut reversed = classified;
    reversed.reverse();
    assert_eq!(sort_triples(reversed), sorted);
    assert_eq!(sort_triples(vec![]), vec![]);
}

#[test]
fn texts_are_ordered_by_code_point() {
    assert_eq!(order_text("", ""), Sign::Equal);
    assert_eq!(order_text("", "a"), Sign::Less);
    assert_eq!(order_text("a", ""), Sign::Greater);
    assert_eq!(order_text("abc", "abd"), Sign::Less);
    assert_eq!(order_text("abc", "ab"), Sign::Greater);
    assert_eq!(order_text("Z", "a"), Sign::Less);
    assert_eq!(order_text("é", "z"), Sign::Greater);
    assert_eq!(order_text("\u{ff5e}", "\u{10000}"), Sign::Less);
    assert!(same_text("é", "é"));
    assert!(!same_text("e", "é"));
}

#[test]
fn numbers_are_read_from_decimal_digits() {
    assert_eq!(parse_u32("0"), Some(0));
    assert_eq!(parse_u32("12"), Some(12));
    assert_eq!(parse_u32("+7"), Some(7));
    assert_eq!(parse_u32("007"), Some(7));
    assert_eq!(parse_u32("4294967295"), Some(4294967295));
    assert_eq!(parse_u32("4294967296"), None);
    assert_eq!(parse_u32("99999999999999999999999"), None);
    assert_eq!(parse_u32(""), None);
    assert_eq!(parse_u32("+"), None);
    assert_eq!(parse_u32("-1"), None);
    assert_eq!(parse_u32("1a"), None);
    assert_eq!(parse_u32(" 1"), None);
    assert_eq!(parse_u32("４"), None);
    for s in ["0", "12", "+7", "007", "4294967295", "4294967296", "", "+", "-1", "1a", "++1"] {
        assert_eq!(parse_u32(s), s.parse::<u32>().ok(), "{}", s);
    }
}

#[test]
fn numbers_are_written_as_decimal_numerals() {
    assert_eq!(decimal(0), "0");
    assert_eq!(decimal(9), "9");
    assert_eq!(decimal(10), "10");
    assert_eq!(decimal(1234567890), "1234567890");
    assert_eq!(decimal(u64::MAX), "18446744073709551615");
}

#[test]
fn a_document_that_is_not_well_formed_is_a_syntax_error() {
    let r = read("<rdf:RDF xmlns:rdf=\"http://www.w3.org/1999/02/22-rdf-syntax-ns#\"><rdf:Description rdf:about=\"a\" rdf:nodeID=\"b\"/></rdf:RDF>".as_bytes());
    assert!(matches!(r, Err(ParseError::SyntaxError(_))));
    let b = Build::new();
    let r = read_with_build("<rdf:RDF xmlns:rdf=\"http://www.w3.org/1999/02/22-rdf-syntax-ns#\"><unknown:x/></rdf:RDF>".as_bytes(), &b);
    assert!(matches!(r, Err(ParseError::SyntaxError(_))));
}

#[test]
fn reading_classifies_and_parses_the_triples_of_a_document() {
    let b = Build::new();
    let doc = "<?xml version=\"1.0\"?>
<rdf:RDF xmlns:owl=\"http://www.w3.org/2002/07/owl#\"
     xmlns:rdf=\"http://www.w3.org/1999/02/22-rdf-syntax-ns#\"
     xmlns:rdfs=\"http://www.w3.org/2000/01/rdf-schema#\">
    <owl:Ontology rdf:about=\"http://www.example.com/iri#O\"/>
    <owl:Class rdf:about=\"http://www.example.com/iri#A\">
        <rdfs:subClassOf rdf:resource=\"http://www.example.com/iri#B\"/>
        <rdfs:label xml:lang=\"en\">a</rdfs:label>
    </owl:Class>
</rdf:RDF>
";
    let (o, _) = read_with_build(doc.as_bytes(), &b).unwrap();
    let same = parsed(vec![
        t(ex("A"), rdfs("label"), Term::Literal("a".to_string(), LiteralKind::Lang("en".to_string()))),
        t(ex("A"), rdfs("subClassOf"), ex("B")),
        t(ex("A"), rdf("type"), owl("Class")),
        ontology_triple(),
    ]);
    assert_eq!(o, same);
    assert_eq!(o.len(), 3);
}

#[test]
fn a_sub_class_axiom_needs_a_named_subject() {
    let b = Build::new();
    let (o, left) = parse(
        vec![
            t(bnode("c"), rdfs("subClassOf"), ex("B")),
            t(bnode("c"), rdf("type"), owl("Class")),
            t(bnode("c"), owl("complementOf"), ex("A")),
        ],
        &b,
    );
    assert_eq!(o.len(), 0);
    assert!(!left.is_complete());
    assert_eq!(left.bnode.len(), 1);
    assert_eq!(left.bnode[0].1.len(), 3);
}

#[test]
fn disjoint_classes_come_in_pairs() {
    let o = parsed(vec![
        t(ex("A"), owl("disjointWith"), ex("B")),
        t(ex("A"), owl("disjointWith"), ex("C")),
    ]);
    assert!(o.contains(&plain(Axiom::DisjointClasses(vec![ce("B"), ce("A")]))));
    assert!(o.contains(&plain(Axiom::DisjointClasses(vec![ce("C"), ce("A")]))));
    assert_eq!(o.len(), 2);
}

fn comment(text: &str) -> Annotation {
    Annotation {
        ap: AnnotationProperty(IRI(format!("{}comment", RDFS_NS))),
        av: AnnotationValue::Literal(Literal::Simple { literal: text.to_string() }),
    }
}

#[test]
fn two_reifications_of_a_triple_unite_their_annotations() {
    let mut triples = vec![t(ex("A"), rdfs("subClassOf"), ex("B"))];
    triples.extend(reification("x", t(bnode("x"), rdfs("label"), string("x"))));
    triples.extend(reification("y", t(bnode("y"), rdfs("label"), string("y"))));
    let o = parsed(triples);
    assert_eq!(o.len(), 1);
    assert_eq!(o.axioms[0].ax, Axiom::SubClassOf { sub: ce("A"), sup: ce("B") });
    assert_eq!(o.axioms[0].ann.len(), 2);
    assert!(o.axioms[0].ann.contains(&label("x")));
    assert!(o.axioms[0].ann.contains(&label("y")));
}

#[test]
fn reifications_unite_whatever_the_order_of_the_blocks() {
    let mut triples = reification("b", t(bnode("b"), rdfs("comment"), string("y")));
    triples.push(t(ex("A"), rdfs("subClassOf"), ex("B")));
    triples.extend(reification("a", t(bnode("a"), rdfs("label"), string("x"))));
    let o = parsed(triples);
    assert_eq!(
        o,
        expect(
            None,
            vec![AnnotatedAxiom {
                ax: Axiom::SubClassOf { sub: ce("A"), sup: ce("B") },
                ann: vec![label("x"), comment("y")],
            }]
        )
    );
    assert_eq!(o.axioms[0].ann.len(), 2);
}

#[test]
fn two_reifications_with_a_shared_annotation_record_it_once() {
    let mut triples = vec![t(ex("A"), rdfs("subClassOf"), ex("B"))];
    triples.extend(reification("x", t(bnode("x"), rdfs("label"), string("x"))));
    triples.extend(reification("y", t(bnode("y"), rdfs("label"), string("x"))));
    triples.push(t(bnode("y"), rdfs("comment"), string("y")));
    let o = parsed(triples);
    assert_eq!(o.len(), 1);
    assert_eq!(o.axioms[0].ann.len(), 2);
    assert!(o.axioms[0].ann.contains(&label("x")));
    assert!(o.axioms[0].ann.contains(&comment("y")));
}

#[test]
fn reifications_of_two_triples_annotate_their_own_axioms() {
    let block = |node: &str, source: &str, annotation: Triple| {
        vec![
            t(bnode(node), rdf("type"), owl("Axiom")),
            t(bnode(node), owl("annotatedSource"), ex(source)),
            t(bnode(node), owl("annotatedProperty"), rdfs("subClassOf")),
            t(bnode(node), owl("annotatedTarget"), ex("B")),
            annotation,
        ]
    };
    let mut triples = vec![
        t(ex("A"), rdfs("subClassOf"), ex("B")),
        t(ex("C"), rdfs("subClassOf"), ex("B")),
    ];
    triples.extend(block("x", "A", t(bnode("x"), rdfs("label"), string("x"))));
    triples.extend(block("z", "C", t(bnode("z"), rdfs("label"), string("z"))));
    triples.extend(block("y", "A", t(bnode("y"), rdfs("comment"), string("y"))));
    let o = parsed(triples);
    assert_eq!(o.len(), 2);
    let first = AnnotatedAxiom {
        ax: Axiom::SubClassOf { sub: ce("A"), sup: ce("B") },
        ann: vec![comment("y"), label("x")],
    };
    let second = AnnotatedAxiom {
        ax: Axiom::SubClassOf { sub: ce("C"), sup: ce("B") },
        ann: vec![label("z")],
    };
    assert!(o.contains(&first));
    assert!(o.contains(&second));
    for a in &o.axioms {
        if a.ax == first.ax {
            assert_eq!(a.ann.len(), 2);
        } else {
            assert_eq!(a.ann.len(), 1);
        }
    }
}

#[test]
fn two_reification_blocks_in_a_document_give_one_axiom() {
    let block = |note: &str| {
        format!(
            "<owl:Axiom>\
             <owl:annotatedSource rdf:resource=\"{ex}A\"/>\
             <owl:annotatedProperty rdf:resource=\"{rdfs}subClassOf\"/>\
             <owl:annotatedTarget rdf:resource=\"{ex}B\"/>\
             {note}\
             </owl:Axiom>",
            ex = EX,
            rdfs = RDFS_NS,
            note = note
        )
    };
    let doc = format!(
        "<rdf:RDF xmlns:rdf=\"{rdf}\" xmlns:rdfs=\"{rdfs}\" xmlns:owl=\"{owl}\">\
         <rdf:Description rdf:about=\"{ex}A\">\
         <rdfs:subClassOf rdf:resource=\"{ex}B\"/>\
         </rdf:Description>\
         {a}{b}\
         </rdf:RDF>",
        rdf = RDF_NS,
        rdfs = RDFS_NS,
        owl = OWL_NS,
        ex = EX,
        a = block("<rdfs:label>x</rdfs:label>"),
        b = block("<rdfs:comment>y</rdfs:comment>")
    );
    let found = match triples(doc.as_bytes()) {
        Ok(v) => v,
        Err(e) => panic!("the document is not read: {:?}", e),
    };
    assert_eq!(found.len(), 11);
    assert_eq!(parsed(found), match read(doc.as_bytes()) {
        Ok(r) => r.0,
        Err(e) => panic!("the document is not read: {:?}", e),
    });
    let o = match read(doc.as_bytes()) {
        Ok(r) => r.0,
        Err(e) => panic!("the document is not read: {:?}", e),
    };
    assert_eq!(o.len(), 1);
    assert_eq!(o.axioms[0].ax, Axiom::SubClassOf { sub: ce("A"), sup: ce("B") });
    assert_eq!(o.axioms[0].ann.len(), 2);
    assert!(o.axioms[0].ann.contains(&label("x")));
    assert!(o.axioms[0].ann.contains(&comment("y")));
}

#[test]
fn a_literal_keeps_its_language_tag_and_gets_no_datatype() {
    let o = parsed(vec![t(
        ex("A"),
        rdfs("comment"),
        Term::Literal("a".to_string(), LiteralKind::Lang("en".to_string())),
    )]);
    assert!(o.contains(&plain(Axiom::AnnotationAssertion {
        subject: iri("A"),
        ann: Annotation {
            ap: AnnotationProperty(IRI(format!("{}comment", RDFS_NS))),
            av: AnnotationValue::Literal(Literal::Language {
                literal: "a".to_string(),
                lang: "en".to_string(),
            }),
        },
    })));
}

fn wrapped(body: &str) -> String {
    format!(
        "<rdf:RDF xmlns:rdf=\"http://www.w3.org/1999/02/22-rdf-syntax-ns#\" xmlns:owl=\"http://www.w3.org/2002/07/owl#\" xmlns:ex=\"http://www.example.com/iri#\">{}</rdf:RDF>",
        body
    )
}

#[test]
fn an_xml_literal_is_not_supported() {
    let doc = wrapped("<rdf:Description rdf:about=\"http://www.example.com/iri#a\"><ex:p rdf:parseType=\"Literal\"><b>x</b></ex:p></rdf:Description>");
    assert!(!is_supported(doc.as_bytes()));
    assert!(matches!(read(doc.as_bytes()), Err(ParseError::Unsupported)));
    let single = doc.replace("\"Literal\"", "'Literal'");
    assert!(matches!(read(single.as_bytes()), Err(ParseError::Unsupported)));
}

#[test]
fn a_collection_of_elements_with_content_is_not_supported() {
    let doc = wrapped("<owl:Class rdf:about=\"http://www.example.com/iri#a\"><owl:unionOf rdf:parseType=\"Collection\"><owl:Class rdf:about=\"http://www.example.com/iri#b\"><ex:p>x</ex:p></owl:Class><rdf:Description rdf:about=\"http://www.example.com/iri#c\"/></owl:unionOf></owl:Class>");
    assert!(!is_supported(doc.as_bytes()));
    assert!(matches!(read(doc.as_bytes()), Err(ParseError::Unsupported)));
    let commented = wrapped("<owl:Class rdf:about=\"http://www.example.com/iri#a\"><owl:unionOf rdf:parseType=\"Collection\"><!-- x --><rdf:Description rdf:about=\"http://www.example.com/iri#c\"/></owl:unionOf></owl:Class>");
    assert!(matches!(read(commented.as_bytes()), Err(ParseError::Unsupported)));
    let open = wrapped("<owl:Class rdf:about=\"http://www.example.com/iri#a\"><owl:unionOf rdf:parseType=\"Collection\"")
        .replace("</rdf:RDF>", "");
    assert!(matches!(read(open.as_bytes()), Err(ParseError::Unsupported)));
}

#[test]
fn a_collection_of_empty_elements_is_supported() {
    let doc = wrapped("<owl:Class rdf:about=\"http://www.example.com/iri#a\"><owl:unionOf rdf:parseType=\"Collection\"><rdf:Description ex:q='>' rdf:about=\"http://www.example.com/iri#b\"/>\n <rdf:Description ex:r=\"/>\" rdf:about=\"http://www.example.com/iri#c\" /></owl:unionOf></owl:Class>");
    assert!(is_supported(doc.as_bytes()));
    let empty = wrapped("<owl:Class rdf:about=\"http://www.example.com/iri#a\"><owl:unionOf rdf:parseType=\"Collection\"/></owl:Class>");
    assert!(is_supported(empty.as_bytes()));
    assert!(is_supported(b""));
    assert!(is_supported(b"Collection and Literal in plain words"));
}

fn only_object(doc: &str) -> Term {
    let found = match triples(doc.as_bytes()) {
        Ok(v) => v,
        Err(e) => panic!("the document is not read: {:?}", e),
    };
    assert_eq!(found.len(), 1);
    found[0].object.clone()
}

#[test]
fn text_outside_ascii_is_read() {
    let doc = wrapped("<rdf:Description rdf:about=\"http://www.example.com/iri#a\"><ex:p>caf\u{e9} \u{4e2d}\u{6587}</ex:p></rdf:Description>");
    assert!(is_supported(doc.as_bytes()));
    assert_eq!(only_object(&doc), string("caf\u{e9} \u{4e2d}\u{6587}"));
    let reference = wrapped("<rdf:Description rdf:about=\"http://www.example.com/iri#a\"><ex:p>caf&#233; &#x4e2d;</ex:p></rdf:Description>");
    assert!(is_supported(reference.as_bytes()));
    assert_eq!(only_object(&reference), string("caf\u{e9} \u{4e2d}"));
    let entity = wrapped("<rdf:Description rdf:about=\"http://www.example.com/iri#a\"><ex:p>a &amp; b</ex:p></rdf:Description>");
    assert_eq!(only_object(&entity), string("a & b"));
    let tagged = wrapped("<rdf:Description rdf:about=\"http://www.example.com/iri#a\"><ex:p xml:lang=\"fr\">\u{e9}t\u{e9}</ex:p></rdf:Description>");
    assert_eq!(
        only_object(&tagged),
        Term::Literal("\u{e9}t\u{e9}".to_string(), LiteralKind::Lang("fr".to_string()))
    );
}

#[test]
fn quoted_words_in_text_are_read() {
    let doc = wrapped("<rdf:Description rdf:about=\"http://www.example.com/iri#a\"><ex:p>a \"Literal\" or a 'Resource' in a \"Collection\"</ex:p></rdf:Description>");
    assert!(is_supported(doc.as_bytes()));
    assert_eq!(only_object(&doc), string("a \"Literal\" or a 'Resource' in a \"Collection\""));
    let value = wrapped("<rdf:Description rdf:about=\"http://www.example.com/iri#a\" ex:q=\"Literal\"/>");
    assert!(!is_supported(value.as_bytes()));
    let renamed = wrapped("<rdf:Description rdf:about=\"http://www.example.com/iri#a\"><ex:p xmlns:r=\"http://www.w3.org/1999/02/22-rdf-syntax-ns#parse\" r:Type=\"Literal\"><b/></ex:p></rdf:Description>");
    assert!(matches!(read(renamed.as_bytes()), Err(ParseError::Unsupported)));
}

#[test]
fn a_reference_to_no_character_is_a_syntax_error() {
    let null = wrapped("<rdf:Description rdf:about=\"http://www.example.com/iri#a\"><ex:p>&#0;</ex:p></rdf:Description>");
    assert!(is_supported(null.as_bytes()));
    assert!(matches!(read(null.as_bytes()), Err(ParseError::SyntaxError(_))));
    let open = wrapped("<rdf:Description rdf:about=\"http://www.example.com/iri#a\"><ex:p>&#233</ex:p></rdf:Description>");
    assert!(matches!(read(open.as_bytes()), Err(ParseError::SyntaxError(_))));
    let mut broken = wrapped("<rdf:Description rdf:about=\"http://www.example.com/iri#a\"><ex:p>x</ex:p></rdf:Description>").into_bytes();
    let at = broken.len() - "x</ex:p></rdf:Description></rdf:RDF>".len();
    assert_eq!(broken[at], b'x');
    broken[at] = 0xff;
    assert!(is_supported(&broken));
    assert!(matches!(read(&broken), Err(ParseError::SyntaxError(_))));
}

#[test]
fn tags_outside_ascii_are_not_supported() {
    let about = wrapped("<rdf:Description rdf:about=\"http://www.example.com/iri#\u{e9}\"><ex:p>x</ex:p></rdf:Description>");
    assert!(!is_supported(about.as_bytes()));
    assert!(matches!(read(about.as_bytes()), Err(ParseError::Unsupported)));
    let name = wrapped("<rdf:Description rdf:about=\"http://www.example.com/iri#a\"><ex:\u{e9}>x</ex:\u{e9}></rdf:Description>");
    assert!(matches!(read(name.as_bytes()), Err(ParseError::Unsupported)));
    let closing = wrapped("<rdf:Description rdf:about=\"http://www.example.com/iri#a\"><ex:p>x</ex:p\u{e9}></rdf:Description>");
    assert!(matches!(read(closing.as_bytes()), Err(ParseError::Unsupported)));
    let reference = wrapped("<rdf:Description rdf:about=\"http://www.example.com/iri#&#233;\"><ex:p>x</ex:p></rdf:Description>");
    assert!(matches!(read(reference.as_bytes()), Err(ParseError::Unsupported)));
    let comment = wrapped("<!-- \u{e9} --><rdf:Description rdf:about=\"http://www.example.com/iri#a\"/>");
    assert!(matches!(read(comment.as_bytes()), Err(ParseError::Unsupported)));
    let instruction = format!("<?x \u{e9}?>{}", wrapped(""));
    assert!(matches!(read(instruction.as_bytes()), Err(ParseError::Unsupported)));
}

#[test]
fn a_rule_that_fails_keeps_its_parts_for_the_next_pass() {
    let o = parsed(vec![
        t(ex("p"), rdf("type"), owl("ObjectProperty")),
        t(ex("A"), rdfs("subClassOf"), bnode("a")),
        t(bnode("a"), rdf("type"), owl("Restriction")),
        t(bnode("a"), owl("onProperty"), bnode("i")),
        t(bnode("a"), owl("someValuesFrom"), bnode("z")),
        t(bnode("i"), owl("inverseOf"), ex("p")),
        t(bnode("z"), rdf("type"), owl("Class")),
        t(bnode("z"), owl("complementOf"), ex("B")),
    ]);
    assert!(o.contains(&plain(Axiom::SubClassOf {
        sub: ce("A"),
        sup: ClassExpression::ObjectSomeValuesFrom {
            ope: ObjectPropertyExpression::InverseObjectProperty(ObjectProperty(iri("p"))),
            bce: Box::new(ClassExpression::ObjectComplementOf(Box::new(ce("B")))),
        },
    })));
    assert_eq!(o.len(), 2);
}

#[test]
fn an_axiom_that_fails_keeps_its_arguments() {
    let b = Build::new();
    let (o, left) = parse(
        vec![
            t(ex("p"), rdf("type"), owl("ObjectProperty")),
            t(bnode("i"), owl("inverseOf"), ex("p")),
            t(ex("q"), rdfs("subPropertyOf"), bnode("i")),
            t(bnode("i"), rdf("type"), owl("TransitiveProperty")),
        ],
        &b,
    );
    assert!(o.contains(&plain(Axiom::TransitiveObjectProperty(
        ObjectPropertyExpression::InverseObjectProperty(ObjectProperty(iri("p")))
    ))));
    assert_eq!(left.simple, vec![t(ex("q"), Term::RDFS(RDFS::SubPropertyOf), bnode("i"))]);
    assert!(left.bnode.is_empty());
    assert!(left.tables.object_property_expression.is_empty());
}

#[test]
fn an_import_is_recorded() {
    let o = parsed(vec![ontology_triple(), t(ex("O"), owl("imports"), ex("P"))]);
    assert_eq!(o, expect(Some("O"), vec![plain(Axiom::Import(iri("P")))]));
}

#[test]
fn a_property_with_content_and_a_resource_is_not_supported() {
    let doc = wrapped("<rdf:Description rdf:about=\"http://www.example.com/iri#a\"><ex:p rdf:resource=\"http://www.example.com/iri#b\"> </ex:p></rdf:Description>");
    assert!(matches!(read(doc.as_bytes()), Err(ParseError::Unsupported)));
    let reified = wrapped("<rdf:Description rdf:about=\"http://www.example.com/iri#a\"><ex:p rdf:ID=\"s\">x</ex:p></rdf:Description>");
    assert!(matches!(read(reified.as_bytes()), Err(ParseError::Unsupported)));
    let resource = wrapped("<rdf:Description rdf:about=\"http://www.example.com/iri#a\"><ex:p rdf:parseType=\"Resource\"><ex:q>x</ex:q></ex:p></rdf:Description>");
    assert!(matches!(read(resource.as_bytes()), Err(ParseError::Unsupported)));
    let typed = wrapped("<rdf:Description rdf:about=\"http://www.example.com/iri#a\"><ex:p xml:lang=\"en\" rdf:datatype=\"http://www.w3.org/2001/XMLSchema#string\">x</ex:p><ex:q rdf:resource=\"http://www.example.com/iri#b\"/></rdf:Description>");
    assert!(is_supported(typed.as_bytes()));
    assert!(read(typed.as_bytes()).is_ok());
}

#[test]
fn a_document_needs_the_root_of_rdf() {
    let bare = "<ex:A xmlns:ex=\"http://www.example.com/iri#\"/>";
    assert!(matches!(read(bare.as_bytes()), Err(ParseError::Unsupported)));
    let unbound = "<rdf:RDF xmlns:rdf=\"http://www.example.com/iri#\"></rdf:RDF>";
    assert!(matches!(read(unbound.as_bytes()), Err(ParseError::Unsupported)));
    let twice = wrapped("").replace("</rdf:RDF>", "</rdf:RDF><rdf:RDF xmlns:rdf=\"http://www.w3.org/1999/02/22-rdf-syntax-ns#\"/>");
    assert!(matches!(read(twice.as_bytes()), Err(ParseError::Unsupported)));
    let rebound = wrapped("<rdf:Description xmlns:rdf=\"http://www.example.com/iri#\"/>");
    assert!(matches!(read(rebound.as_bytes()), Err(ParseError::Unsupported)));
    let commented = wrapped("<!-- a class --><owl:Class rdf:about=\"http://www.example.com/iri#a\"/><?pi x?>");
    assert!(read(commented.as_bytes()).is_ok());
    let wide = wrapped("<!-- a > b --><owl:Class rdf:about=\"http://www.example.com/iri#a\"/>");
    assert!(matches!(read(wide.as_bytes()), Err(ParseError::Unsupported)));
    let declared = format!("<!DOCTYPE rdf:RDF>{}", wrapped(""));
    assert!(matches!(read(declared.as_bytes()), Err(ParseError::Unsupported)));
}

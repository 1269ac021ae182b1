use horned_owl::io::rdf::reader::read;
use horned_owl::model::axioms::Axiom;
use horned_owl::model::entity::{
    AnnotationProperty, Class, DataProperty, Datatype, NamedIndividual, ObjectProperty, IRI,
};
use horned_owl::model::expression::{
    ClassExpression, DataRange, ObjectPropertyExpression, SubObjectPropertyExpression,
};
use horned_owl::model::literal::{Annotation, AnnotationValue, Literal};
use horned_owl::ontology::{AnnotatedAxiom, Ontology};

const ONT: &str = "http://www.example.com/iri";
const XSD: &str = "http://www.w3.org/2001/XMLSchema#";
const RDFS: &str = "http://www.w3.org/2000/01/rdf-schema#";

const HEAD: &str = "<?xml version=\"1.0\"?>
<rdf:RDF xmlns=\"http://www.example.com/iri#\"
     xml:base=\"http://www.example.com/iri\"
     xmlns:owl=\"http://www.w3.org/2002/07/owl#\"
     xmlns:rdf=\"http://www.w3.org/1999/02/22-rdf-syntax-ns#\"
     xmlns:xml=\"http://www.w3.org/XML/1998/namespace\"
     xmlns:xsd=\"http://www.w3.org/2001/XMLSchema#\"
     xmlns:rdfs=\"http://www.w3.org/2000/01/rdf-schema#\">
    <owl:Ontology rdf:about=\"http://www.example.com/iri\"/>
";

fn document(body: &str) -> String {
    format!("{}{}</rdf:RDF>\n", HEAD, body)
}

fn name(local: &str) -> String {
    format!("{}#{}", ONT, local)
}

fn iri(local: &str) -> IRI {
    IRI(name(local))
}

fn named(local: &str) -> Class {
    Class(iri(local))
}

fn ce(local: &str) -> ClassExpression {
    ClassExpression::Class(named(local))
}

fn op(local: &str) -> ObjectProperty {
    ObjectProperty(iri(local))
}

fn ope(local: &str) -> ObjectPropertyExpression {
    ObjectPropertyExpression::ObjectProperty(op(local))
}

fn dp(local: &str) -> DataProperty {
    DataProperty(iri(local))
}

fn ap(local: &str) -> AnnotationProperty {
    AnnotationProperty(iri(local))
}

fn xsd(local: &str) -> Datatype {
    Datatype(IRI(format!("{}{}", XSD, local)))
}

fn rdfs(local: &str) -> AnnotationProperty {
    AnnotationProperty(IRI(format!("{}{}", RDFS, local)))
}

fn simple(text: &str) -> AnnotationValue {
    AnnotationValue::Literal(Literal::Simple { literal: text.to_string() })
}

fn plain(ax: Axiom) -> AnnotatedAxiom {
    AnnotatedAxiom::new(ax)
}

fn annotated(ax: Axiom, ann: Vec<Annotation>) -> AnnotatedAxiom {
    AnnotatedAxiom { ax, ann }
}

fn declare_class(local: &str) -> AnnotatedAxiom {
    plain(Axiom::DeclareClass(named(local)))
}

fn declare_op(local: &str) -> AnnotatedAxiom {
    plain(Axiom::DeclareObjectProperty(op(local)))
}

fn declare_dp(local: &str) -> AnnotatedAxiom {
    plain(Axiom::DeclareDataProperty(dp(local)))
}

fn declare_ap(local: &str) -> AnnotatedAxiom {
    plain(Axiom::DeclareAnnotationProperty(ap(local)))
}

fn ontology(axioms: Vec<AnnotatedAxiom>) -> Ontology {
    let mut o = Ontology::new();
    o.id.iri = Some(IRI(ONT.to_string()));
    for ax in axioms {
        o.insert(ax);
    }
    o
}

fn tag(kind: &str, local: &str) -> String {
    format!("    <owl:{} rdf:about=\"{}\"/>\n", kind, name(local))
}

fn block(kind: &str, local: &str, inner: &str) -> String {
    format!("    <owl:{} rdf:about=\"{}\">\n{}    </owl:{}>\n", kind, name(local), inner, kind)
}

fn resource(property: &str, local: &str) -> String {
    format!("        <{} rdf:resource=\"{}\"/>\n", property, name(local))
}

fn nested(property: &str, inner: &str) -> String {
    format!("        <{}>\n{}        </{}>\n", property, inner, property)
}

fn restriction(inner: &str) -> String {
    format!("            <owl:Restriction>\n{}            </owl:Restriction>\n", inner)
}

fn inner(property: &str, local: &str) -> String {
    format!("                <{} rdf:resource=\"{}\"/>\n", property, name(local))
}

fn inner_xsd(property: &str, local: &str) -> String {
    format!("                <{} rdf:resource=\"{}{}\"/>\n", property, XSD, local)
}

fn count(property: &str, n: u32) -> String {
    format!(
        "                <{} rdf:datatype=\"{}nonNegativeInteger\">{}</{}>\n",
        property, XSD, n, property
    )
}

fn collection(property: &str, members: &[String]) -> String {
    let mut s = format!("                <{} rdf:parseType=\"Collection\">\n", property);
    for m in members {
        s.push_str(&format!("                    <rdf:Description rdf:about=\"{}\"/>\n", m));
    }
    s.push_str(&format!("                </{}>\n", property));
    s
}

fn axiom_block(source: &str, property: &str, target: &str, annotations: &str) -> String {
    format!(
        "    <owl:Axiom>\n        <owl:annotatedSource rdf:resource=\"{}\"/>\n        <owl:annotatedProperty rdf:resource=\"{}\"/>\n        {}\n{}    </owl:Axiom>\n",
        source, property, target, annotations
    )
}

fn target_resource(target: &str) -> String {
    format!("<owl:annotatedTarget rdf:resource=\"{}\"/>", target)
}

const RDF_TYPE: &str = "http://www.w3.org/1999/02/22-rdf-syntax-ns#type";
const OWL: &str = "http://www.w3.org/2002/07/owl#";

fn some_values(property: &str, filler: ClassExpression) -> ClassExpression {
    ClassExpression::ObjectSomeValuesFrom { ope: ope(property), bce: Box::new(filler) }
}

fn sub_class(sub: &str, sup: ClassExpression) -> AnnotatedAxiom {
    plain(Axiom::SubClassOf { sub: ce(sub), sup })
}

fn label_assertion(subject: &str, text: &str) -> Axiom {
    Axiom::AnnotationAssertion {
        subject: iri(subject),
        ann: Annotation { ap: rdfs("label"), av: simple(text) },
    }
}

fn class_with_restriction(inner_triples: &str) -> String {
    format!(
        "{}{}{}",
        tag("ObjectProperty", "r"),
        tag("Class", "D"),
        block("Class", "C", &nested("rdfs:subClassOf", &restriction(inner_triples)))
    )
}

fn data_restriction(inner_triples: &str) -> String {
    format!(
        "{}{}",
        tag("DatatypeProperty", "dp"),
        block("Class", "C", &nested("rdfs:subClassOf", &restriction(inner_triples)))
    )
}

fn property_with_type(kind: &str, characteristic: &str) -> String {
    block(
        kind,
        "r",
        &format!("        <rdf:type rdf:resource=\"{}{}\"/>\n", OWL, characteristic),
    )
}

fn datatype_definition(inner_triples: &str) -> String {
    format!(
        "    <rdfs:Datatype rdf:about=\"{}\">\n        <owl:equivalentClass>\n            <rdfs:Datatype>\n{}            </rdfs:Datatype>\n        </owl:equivalentClass>\n    </rdfs:Datatype>\n",
        name("D"),
        inner_triples
    )
}

fn xsd_members(locals: &[&str]) -> Vec<String> {
    locals.iter().map(|l| format!("{}{}", XSD, l)).collect()
}

fn local_members(locals: &[&str]) -> Vec<String> {
    locals.iter().map(|l| name(l)).collect()
}

fn datatype_defined(range: DataRange) -> Ontology {
    ontology(vec![
        plain(Axiom::DeclareDatatype(Datatype(iri("D")))),
        plain(Axiom::DatatypeDefinition { kind: Datatype(iri("D")), range }),
    ])
}

fn restricted(sup: ClassExpression) -> Ontology {
    ontology(vec![declare_op("r"), declare_class("C"), declare_class("D"), sub_class("C", sup)])
}

fn data_restricted(sup: ClassExpression) -> Ontology {
    ontology(vec![declare_dp("dp"), declare_class("C"), sub_class("C", sup)])
}

fn characteristic(ax: Axiom) -> Ontology {
    ontology(vec![declare_op("r"), plain(ax)])
}

/// The RDF/XML document of a fixture.
fn owl_rdf(fixture: &str) -> String {
    let body = match fixture {
        "class" => tag("Class", "C"),
        "declaration-with-annotation" => format!(
            "{}{}",
            tag("Class", "C"),
            axiom_block(
                &name("C"),
                RDF_TYPE,
                &target_resource(&format!("{}Class", OWL)),
                "        <rdfs:comment>A declaration</rdfs:comment>\n"
            )
        ),
        "declaration-with-two-annotation" => format!(
            "{}{}",
            tag("Class", "C"),
            axiom_block(
                &name("C"),
                RDF_TYPE,
                &target_resource(&format!("{}Class", OWL)),
                "        <rdfs:comment>A declaration</rdfs:comment>\n        <rdfs:label>C</rdfs:label>\n"
            )
        ),
        "class_with_two_annotations" => block(
            "Class",
            "C",
            "        <rdfs:comment>A comment</rdfs:comment>\n        <rdfs:label>A label</rdfs:label>\n",
        ),
        "ont" => String::new(),
        "one-subclass" => format!(
            "{}{}",
            tag("Class", "C"),
            block("Class", "D", &resource("rdfs:subClassOf", "C"))
        ),
        "annotation-on-subclass" => format!(
            "{}{}{}",
            tag("Class", "C"),
            block("Class", "D", &resource("rdfs:subClassOf", "C")),
            axiom_block(
                &name("D"),
                &format!("{}subClassOf", RDFS),
                &target_resource(&name("C")),
                "        <rdfs:comment>An annotation</rdfs:comment>\n"
            )
        ),
        "oproperty" => tag("ObjectProperty", "r"),
        "some" => class_with_restriction(&format!(
            "{}{}",
            inner("owl:onProperty", "r"),
            inner("owl:someValuesFrom", "D")
        )),
        "manual/one-some-reversed-triples" => format!(
            "{}{}{}",
            block(
                "Class",
                "C",
                &nested(
                    "rdfs:subClassOf",
                    &restriction(&format!(
                        "{}{}",
                        inner("owl:someValuesFrom", "D"),
                        inner("owl:onProperty", "r")
                    ))
                )
            ),
            tag("Class", "D"),
            tag("ObjectProperty", "r")
        ),
        "manual/one-some-property-filler-reversed" => format!(
            "{}{}{}",
            tag("Class", "D"),
            tag("ObjectProperty", "r"),
            format!(
                "    <rdf:Description rdf:about=\"{}\">\n        <rdfs:subClassOf>\n            <rdf:Description>\n{}{}                <rdf:type rdf:resource=\"{}Restriction\"/>\n            </rdf:Description>\n        </rdfs:subClassOf>\n        <rdf:type rdf:resource=\"{}Class\"/>\n    </rdf:Description>\n",
                name("C"),
                inner("owl:someValuesFrom", "D"),
                inner("owl:onProperty", "r"),
                OWL,
                OWL
            )
        ),
        "some-not" => class_with_restriction(&format!(
            "{}                <owl:someValuesFrom>\n                    <owl:Class>\n                        <owl:complementOf rdf:resource=\"{}\"/>\n                    </owl:Class>\n                </owl:someValuesFrom>\n",
            inner("owl:onProperty", "r"),
            name("D")
        )),
        "only" => class_with_restriction(&format!(
            "{}{}",
            inner("owl:onProperty", "r"),
            inner("owl:allValuesFrom", "D")
        )),
        "and" | "or" => format!(
            "{}{}{}",
            tag("Class", "D"),
            tag("Class", "E"),
            block(
                "Class",
                "C",
                &nested(
                    "rdfs:subClassOf",
                    &format!(
                        "            <owl:Class>\n{}            </owl:Class>\n",
                        collection(
                            if fixture == "and" { "owl:intersectionOf" } else { "owl:unionOf" },
                            &local_members(&["D", "E"])
                        )
                    )
                )
            )
        ),
        "not" => format!(
            "{}{}",
            tag("Class", "D"),
            block(
                "Class",
                "C",
                &nested(
                    "rdfs:subClassOf",
                    &format!(
                        "            <owl:Class>\n{}            </owl:Class>\n",
                        inner("owl:complementOf", "D")
                    )
                )
            )
        ),
        "annotation-property" => tag("AnnotationProperty", "ann"),
        "annotation" => format!(
            "{}{}",
            tag("AnnotationProperty", "ann"),
            block("Class", "C", "        <ann>Hello</ann>\n")
        ),
        "annotation-domain" => format!(
            "{}{}",
            block("AnnotationProperty", "ann", &resource("rdfs:domain", "d")),
            tag("Class", "d")
        ),
        "annotation-range" => format!(
            "{}{}",
            block("AnnotationProperty", "ann", &resource("rdfs:range", "d")),
            tag("Class", "d")
        ),
        "label" => block("Class", "C", "        <rdfs:label>A label</rdfs:label>\n"),
        "one-comment" => {
            block("Class", "C", "        <rdfs:comment xml:lang=\"en\">A comment</rdfs:comment>\n")
        }
        "one-equivalent" => format!(
            "{}{}",
            tag("Class", "C"),
            block("Class", "D", &resource("owl:equivalentClass", "C"))
        ),
        "one-disjoint" => format!(
            "{}{}",
            tag("Class", "C"),
            block("Class", "D", &resource("owl:disjointWith", "C"))
        ),
        "disjoint-union" => format!(
            "{}{}{}",
            tag("Class", "D"),
            tag("Class", "E"),
            block(
                "Class",
                "C",
                &collection("owl:disjointUnionOf", &local_members(&["D", "E"]))
            )
        ),
        "suboproperty" => format!(
            "{}{}",
            tag("ObjectProperty", "r"),
            block("ObjectProperty", "s", &resource("rdfs:subPropertyOf", "r"))
        ),
        "suboproperty-inverse" => format!(
            "{}{}",
            tag("ObjectProperty", "s"),
            block(
                "ObjectProperty",
                "r",
                &nested(
                    "rdfs:subPropertyOf",
                    &format!(
                        "            <rdf:Description>\n{}            </rdf:Description>\n",
                        inner("owl:inverseOf", "s")
                    )
                )
            )
        ),
        "inverse-properties" => format!(
            "{}{}",
            tag("ObjectProperty", "s"),
            block("ObjectProperty", "r", &resource("owl:inverseOf", "s"))
        ),
        "transitive-properties" => property_with_type("ObjectProperty", "TransitiveProperty"),
        "inverse-transitive" => format!(
            "{}    <rdf:Description>\n        <owl:inverseOf rdf:resource=\"{}\"/>\n        <rdf:type rdf:resource=\"{}TransitiveProperty\"/>\n    </rdf:Description>\n",
            tag("ObjectProperty", "r"),
            name("r"),
            OWL
        ),
        "annotation-on-transitive" => format!(
            "{}{}",
            property_with_type("ObjectProperty", "TransitiveProperty"),
            axiom_block(
                &name("r"),
                RDF_TYPE,
                &target_resource(&format!("{}TransitiveProperty", OWL)),
                "        <rdfs:comment>An annotation</rdfs:comment>\n"
            )
        ),
        "subproperty-chain" => format!(
            "{}{}{}",
            tag("ObjectProperty", "r"),
            tag("ObjectProperty", "s"),
            block(
                "ObjectProperty",
                "t",
                &collection("owl:propertyChainAxiom", &local_members(&["r", "s"]))
            )
        ),
        "annotation-with-annotation" => format!(
            "{}{}",
            block("Class", "C", "        <rdfs:label>A label</rdfs:label>\n"),
            axiom_block(
                &name("C"),
                &format!("{}label", RDFS),
                "<owl:annotatedTarget>A label</owl:annotatedTarget>",
                "        <rdfs:comment>About the label</rdfs:comment>\n"
            )
        ),
        "annotation-with-non-builtin-annotation" => format!(
            "{}{}{}",
            tag("AnnotationProperty", "ann"),
            block("Class", "C", "        <rdfs:label>A label</rdfs:label>\n"),
            axiom_block(
                &name("C"),
                &format!("{}label", RDFS),
                "<owl:annotatedTarget>A label</owl:annotatedTarget>",
                "        <ann>About the label</ann>\n"
            )
        ),
        "sub-annotation" => format!(
            "{}{}",
            tag("AnnotationProperty", "sup"),
            block("AnnotationProperty", "sub", &resource("rdfs:subPropertyOf", "sup"))
        ),
        "data-property" => tag("DatatypeProperty", "dp"),
        "named-individual" => tag("NamedIndividual", "i"),
        "datatype" => format!("    <rdfs:Datatype rdf:about=\"{}\"/>\n", name("D")),
        "object-has-value" => format!(
            "{}{}",
            tag("NamedIndividual", "i"),
            class_with_restriction(&format!(
                "{}{}",
                inner("owl:onProperty", "r"),
                inner("owl:hasValue", "i")
            ))
        ),
        "object-one-of" => format!(
            "{}{}{}",
            tag("NamedIndividual", "i"),
            tag("NamedIndividual", "j"),
            block(
                "Class",
                "C",
                &nested(
                    "rdfs:subClassOf",
                    &format!(
                        "            <owl:Class>\n{}            </owl:Class>\n",
                        collection("owl:oneOf", &local_members(&["i", "j"]))
                    )
                )
            )
        ),
        "some-inverse" => class_with_restriction(&format!(
            "                <owl:onProperty>\n                    <rdf:Description>\n                        <owl:inverseOf rdf:resource=\"{}\"/>\n                    </rdf:Description>\n                </owl:onProperty>\n{}",
            name("r"),
            inner("owl:someValuesFrom", "D")
        )),
        "object-unqualified-max-cardinality" => class_with_restriction(&format!(
            "{}{}",
            inner("owl:onProperty", "r"),
            count("owl:maxCardinality", 1)
        )),
        "object-min-cardinality" => class_with_restriction(&format!(
            "{}{}{}",
            inner("owl:onProperty", "r"),
            count("owl:minQualifiedCardinality", 1),
            inner("owl:onClass", "D")
        )),
        "object-max-cardinality" => class_with_restriction(&format!(
            "{}{}{}",
            inner("owl:onProperty", "r"),
            count("owl:maxQualifiedCardinality", 2),
            inner("owl:onClass", "D")
        )),
        "object-exact-cardinality" => class_with_restriction(&format!(
            "{}{}{}",
            inner("owl:onProperty", "r"),
            count("owl:qualifiedCardinality", 3),
            inner("owl:onClass", "D")
        )),
        "datatype-alias" => format!(
            "    <rdfs:Datatype rdf:about=\"{}\">\n        <owl:equivalentClass rdf:resource=\"{}integer\"/>\n    </rdfs:Datatype>\n",
            name("D"),
            XSD
        ),
        "datatype-intersection" => datatype_definition(&collection(
            "owl:intersectionOf",
            &xsd_members(&["integer", "positiveInteger"]),
        )),
        "datatype-union" => datatype_definition(&collection(
            "owl:unionOf",
            &xsd_members(&["integer", "string"]),
        )),
        "datatype-complement" => {
            datatype_definition(&inner_xsd("owl:datatypeComplementOf", "integer"))
        }
        "data-some" => data_restriction(&format!(
            "{}{}",
            inner("owl:onProperty", "dp"),
            inner_xsd("owl:someValuesFrom", "integer")
        )),
        "data-only" => data_restriction(&format!(
            "{}{}",
            inner("owl:onProperty", "dp"),
            inner_xsd("owl:allValuesFrom", "integer")
        )),
        "data-exact-cardinality" => data_restriction(&format!(
            "{}{}{}",
            inner("owl:onProperty", "dp"),
            count("owl:qualifiedCardinality", 1),
            inner_xsd("owl:onDataRange", "integer")
        )),
        "data-property-domain" => format!(
            "{}{}",
            tag("Class", "C"),
            block("DatatypeProperty", "dp", &resource("rdfs:domain", "C"))
        ),
        "data-property-functional" => block(
            "DatatypeProperty",
            "r",
            &format!("        <rdf:type rdf:resource=\"{}FunctionalProperty\"/>\n", OWL),
        ),
        "data-property-range" => block(
            "DatatypeProperty",
            "dp",
            &format!("        <rdfs:range rdf:resource=\"{}integer\"/>\n", XSD),
        ),
        "object-property-asymmetric" => property_with_type("ObjectProperty", "AsymmetricProperty"),
        "object-property-domain" => format!(
            "{}{}",
            tag("Class", "C"),
            block("ObjectProperty", "r", &resource("rdfs:domain", "C"))
        ),
        "object-property-functional" => property_with_type("ObjectProperty", "FunctionalProperty"),
        "object-property-inverse-functional" => {
            property_with_type("ObjectProperty", "InverseFunctionalProperty")
        }
        "object-property-irreflexive" => {
            property_with_type("ObjectProperty", "IrreflexiveProperty")
        }
        "object-property-range" => format!(
            "{}{}",
            tag("Class", "C"),
            block("ObjectProperty", "r", &resource("rdfs:range", "C"))
        ),
        "object-property-reflexive" => property_with_type("ObjectProperty", "ReflexiveProperty"),
        "object-property-symmetric" => property_with_type("ObjectProperty", "SymmetricProperty"),
        other => panic!("no such document: {}", other),
    };
    document(&body)
}

/// The ontology that the fixture encodes.
fn owl_xml(fixture: &str) -> Ontology {
    let comment = |text: &str| Annotation { ap: rdfs("comment"), av: simple(text) };
    match fixture {
        "class" => ontology(vec![declare_class("C")]),
        "declaration-with-annotation" => ontology(vec![annotated(
            Axiom::DeclareClass(named("C")),
            vec![comment("A declaration")],
        )]),
        "declaration-with-two-annotation" => ontology(vec![annotated(
            Axiom::DeclareClass(named("C")),
            vec![
                Annotation { ap: rdfs("label"), av: simple("C") },
                comment("A declaration"),
            ],
        )]),
        "class_with_two_annotations" => ontology(vec![
            declare_class("C"),
            plain(label_assertion("C", "A label")),
            plain(Axiom::AnnotationAssertion { subject: iri("C"), ann: comment("A comment") }),
        ]),
        "ont" => ontology(vec![]),
        "one-subclass" => {
            ontology(vec![declare_class("C"), declare_class("D"), sub_class("D", ce("C"))])
        }
        "annotation-on-subclass" => ontology(vec![
            declare_class("C"),
            declare_class("D"),
            annotated(
                Axiom::SubClassOf { sub: ce("D"), sup: ce("C") },
                vec![comment("An annotation")],
            ),
        ]),
        "oproperty" => ontology(vec![declare_op("r")]),
        "some" => restricted(some_values("r", ce("D"))),
        "some-not" => restricted(some_values(
            "r",
            ClassExpression::ObjectComplementOf(Box::new(ce("D"))),
        )),
        "only" => restricted(ClassExpression::ObjectAllValuesFrom {
            ope: ope("r"),
            bce: Box::new(ce("D")),
        }),
        "and" => ontology(vec![
            declare_class("C"),
            declare_class("D"),
            declare_class("E"),
            sub_class("C", ClassExpression::ObjectIntersectionOf(vec![ce("D"), ce("E")])),
        ]),
        "or" => ontology(vec![
            declare_class("C"),
            declare_class("D"),
            declare_class("E"),
            sub_class("C", ClassExpression::ObjectUnionOf(vec![ce("D"), ce("E")])),
        ]),
        "not" => ontology(vec![
            declare_class("C"),
            declare_class("D"),
            sub_class("C", ClassExpression::ObjectComplementOf(Box::new(ce("D")))),
        ]),
        "annotation-property" => ontology(vec![declare_ap("ann")]),
        "annotation" => ontology(vec![
            declare_ap("ann"),
            declare_class("C"),
            plain(Axiom::AnnotationAssertion {
                subject: iri("C"),
                ann: Annotation { ap: ap("ann"), av: simple("Hello") },
            }),
        ]),
        "annotation-domain" => ontology(vec![
            declare_ap("ann"),
            declare_class("d"),
            plain(Axiom::AnnotationPropertyDomain { ap: ap("ann"), iri: iri("d") }),
        ]),
        "annotation-range" => ontology(vec![
            declare_ap("ann"),
            declare_class("d"),
            plain(Axiom::AnnotationPropertyRange { ap: ap("ann"), iri: iri("d") }),
        ]),
        "label" => ontology(vec![declare_class("C"), plain(label_assertion("C", "A label"))]),
        "one-comment" => ontology(vec![
            declare_class("C"),
            plain(Axiom::AnnotationAssertion {
                subject: iri("C"),
                ann: Annotation {
                    ap: rdfs("comment"),
                    av: AnnotationValue::Literal(Literal::Language {
                        literal: "A comment".to_string(),
                        lang: "en".to_string(),
                    }),
                },
            }),
        ]),
        "one-equivalent" => ontology(vec![
            declare_class("C"),
            declare_class("D"),
            plain(Axiom::EquivalentClasses(vec![ce("C"), ce("D")])),
        ]),
        "one-disjoint" => ontology(vec![
            declare_class("C"),
            declare_class("D"),
            plain(Axiom::DisjointClasses(vec![ce("C"), ce("D")])),
        ]),
        "disjoint-union" => ontology(vec![
            declare_class("C"),
            declare_class("D"),
            declare_class("E"),
            plain(Axiom::DisjointUnion(named("C"), vec![ce("D"), ce("E")])),
        ]),
        "suboproperty" => ontology(vec![
            declare_op("r"),
            declare_op("s"),
            plain(Axiom::SubObjectPropertyOf {
                sup: ope("r"),
                sub: SubObjectPropertyExpression::ObjectPropertyExpression(ope("s")),
            }),
        ]),
        "suboproperty-inverse" => ontology(vec![
            declare_op("r"),
            declare_op("s"),
            plain(Axiom::SubObjectPropertyOf {
                sup: ObjectPropertyExpression::InverseObjectProperty(op("s")),
                sub: SubObjectPropertyExpression::ObjectPropertyExpression(ope("r")),
            }),
        ]),
        "inverse-properties" => ontology(vec![
            declare_op("r"),
            declare_op("s"),
            plain(Axiom::InverseObjectProperties(op("r"), op("s"))),
        ]),
        "transitive-properties" => characteristic(Axiom::TransitiveObjectProperty(ope("r"))),
        "inverse-transitive" => characteristic(Axiom::TransitiveObjectProperty(
            ObjectPropertyExpression::InverseObjectProperty(op("r")),
        )),
        "annotation-on-transitive" => ontology(vec![
            declare_op("r"),
            annotated(
                Axiom::TransitiveObjectProperty(ope("r")),
                vec![comment("An annotation")],
            ),
        ]),
        "subproperty-chain" => ontology(vec![
            declare_op("r"),
            declare_op("s"),
            declare_op("t"),
            plain(Axiom::SubObjectPropertyOf {
                sup: ope("t"),
                sub: SubObjectPropertyExpression::ObjectPropertyChain(vec![ope("r"), ope("s")]),
            }),
        ]),
        "annotation-with-annotation" => ontology(vec![
            declare_class("C"),
            annotated(label_assertion("C", "A label"), vec![comment("About the label")]),
        ]),
        "annotation-with-non-builtin-annotation" => ontology(vec![
            declare_ap("ann"),
            declare_class("C"),
            annotated(
                label_assertion("C", "A label"),
                vec![Annotation { ap: ap("ann"), av: simple("About the label") }],
            ),
        ]),
        "sub-annotation" => ontology(vec![
            declare_ap("sup"),
            declare_ap("sub"),
            plain(Axiom::SubAnnotationPropertyOf { sup: ap("sup"), sub: ap("sub") }),
        ]),
        "data-property" => ontology(vec![declare_dp("dp")]),
        "named-individual" => {
            ontology(vec![plain(Axiom::DeclareNamedIndividual(NamedIndividual(iri("i"))))])
        }
        "datatype" => ontology(vec![plain(Axiom::DeclareDatatype(Datatype(iri("D"))))]),
        "object-has-value" => ontology(vec![
            plain(Axiom::DeclareNamedIndividual(NamedIndividual(iri("i")))),
            declare_op("r"),
            declare_class("C"),
            declare_class("D"),
            sub_class(
                "C",
                ClassExpression::ObjectHasValue { ope: ope("r"), i: NamedIndividual(iri("i")) },
            ),
        ]),
        "object-one-of" => ontology(vec![
            plain(Axiom::DeclareNamedIndividual(NamedIndividual(iri("i")))),
            plain(Axiom::DeclareNamedIndividual(NamedIndividual(iri("j")))),
            declare_class("C"),
            sub_class(
                "C",
                ClassExpression::ObjectOneOf(vec![
                    NamedIndividual(iri("i")),
                    NamedIndividual(iri("j")),
                ]),
            ),
        ]),
        "some-inverse" => restricted(ClassExpression::ObjectSomeValuesFrom {
            ope: ObjectPropertyExpression::InverseObjectProperty(op("r")),
            bce: Box::new(ce("D")),
        }),
        "object-unqualified-max-cardinality" => {
            restricted(ClassExpression::ObjectMaxCardinality {
                n: 1,
                ope: ope("r"),
                bce: Box::new(ClassExpression::Class(Class(IRI(format!("{}Thing", OWL))))),
            })
        }
        "object-min-cardinality" => restricted(ClassExpression::ObjectMinCardinality {
            n: 1,
            ope: ope("r"),
            bce: Box::new(ce("D")),
        }),
        "object-max-cardinality" => restricted(ClassExpression::ObjectMaxCardinality {
            n: 2,
            ope: ope("r"),
            bce: Box::new(ce("D")),
        }),
        "object-exact-cardinality" => restricted(ClassExpression::ObjectExactCardinality {
            n: 3,
            ope: ope("r"),
            bce: Box::new(ce("D")),
        }),
        "datatype-alias" => datatype_defined(DataRange::Datatype(xsd("integer"))),
        "datatype-intersection" => datatype_defined(DataRange::DataIntersectionOf(vec![
            DataRange::Datatype(xsd("integer")),
            DataRange::Datatype(xsd("positiveInteger")),
        ])),
        "datatype-union" => datatype_defined(DataRange::DataUnionOf(vec![
            DataRange::Datatype(xsd("integer")),
            DataRange::Datatype(xsd("string")),
        ])),
        "datatype-complement" => datatype_defined(DataRange::DataComplementOf(Box::new(
            DataRange::Datatype(xsd("integer")),
        ))),
        "data-some" => data_restricted(ClassExpression::DataSomeValuesFrom {
            dp: dp("dp"),
            dr: DataRange::Datatype(xsd("integer")),
        }),
        "data-only" => data_restricted(ClassExpression::DataAllValuesFrom {
            dp: dp("dp"),
            dr: DataRange::Datatype(xsd("integer")),
        }),
        "data-exact-cardinality" => data_restricted(ClassExpression::DataExactCardinality {
            n: 1,
            dp: dp("dp"),
            dr: DataRange::Datatype(xsd("integer")),
        }),
        "data-property-domain" => ontology(vec![
            declare_class("C"),
            declare_dp("dp"),
            plain(Axiom::DataPropertyDomain { dp: dp("dp"), ce: ce("C") }),
        ]),
        "data-property-functional" => {
            ontology(vec![declare_dp("r"), plain(Axiom::FunctionalDataProperty(dp("r")))])
        }
        "data-property-range" => ontology(vec![
            declare_dp("dp"),
            plain(Axiom::DataPropertyRange {
                dp: dp("dp"),
                dr: DataRange::Datatype(xsd("integer")),
            }),
        ]),
        "object-property-asymmetric" => characteristic(Axiom::AsymmetricObjectProperty(ope("r"))),
        "object-property-domain" => ontology(vec![
            declare_class("C"),
            declare_op("r"),
            plain(Axiom::ObjectPropertyDomain { ope: ope("r"), ce: ce("C") }),
        ]),
        "object-property-functional" => characteristic(Axiom::FunctionalObjectProperty(ope("r"))),
        "object-property-inverse-functional" => {
            characteristic(Axiom::InverseFunctionalObjectProperty(ope("r")))
        }
        "object-property-irreflexive" => {
            characteristic(Axiom::IrreflexiveObjectProperty(ope("r")))
        }
        "object-property-range" => ontology(vec![
            declare_class("C"),
            declare_op("r"),
            plain(Axiom::ObjectPropertyRange { ope: ope("r"), ce: ce("C") }),
        ]),
        "object-property-reflexive" => characteristic(Axiom::ReflexiveObjectProperty(ope("r"))),
        "object-property-symmetric" => characteristic(Axiom::SymmetricObjectProperty(ope("r"))),
        other => panic!("no such ontology: {}", other),
    }
}

fn read_ok(document: &str) -> Ontology {
    let r = read(document.as_bytes());
    assert!(r.is_ok(), "Expected ontology, get failure: {:?}", r.err());
    r.unwrap().0
}

fn compare(test: &str) {
    compare_two(test, test);
}

fn compare_two(testrdf: &str, testowl: &str) {
    let rdfont = read_ok(&owl_rdf(testrdf));
    let xmlont = owl_xml(testowl);
    assert_eq!(rdfont, xmlont);
}

#[test]
fn class() {
    compare("class");
}

#[test]
fn declaration_with_annotation() {
    compare("declaration-with-annotation");
}

#[test]
fn declaration_with_two_annotation() {
    compare("declaration-with-two-annotation");
}

#[test]
fn class_with_two_annotations() {
    compare("class_with_two_annotations");
}

#[test]
fn ont() {
    compare("ont");
}

#[test]
fn one_subclass() {
    compare("one-subclass");
}

#[test]
fn subclass_with_annotation() {
    compare("annotation-on-subclass");
}

#[test]
fn oproperty() {
    compare("oproperty");
}

#[test]
fn some() {
    compare("some");
}

#[test]
fn some_not() {
    compare("some-not");
}

#[test]
fn only() {
    compare("only");
}

#[test]
fn and() {
    compare("and");
}

#[test]
fn or() {
    compare("or");
}

#[test]
fn not() {
    compare("not");
}

#[test]
fn annotation_property() {
    compare("annotation-property");
}

#[test]
fn annotation() {
    compare("annotation");
}

#[test]
fn annotation_domain() {
    compare("annotation-domain");
}

#[test]
fn annotation_range() {
    compare("annotation-range");
}

#[test]
fn label() {
    compare("label");
}

#[test]
fn one_comment() {
    compare("one-comment");
}

#[test]
fn one_equivalent_class() {
    compare("one-equivalent");
}

#[test]
fn one_disjoint_class() {
    compare("one-disjoint");
}

#[test]
fn disjoint_union() {
    compare("disjoint-union");
}

#[test]
fn sub_oproperty() {
    compare("suboproperty");
}

#[test]
fn sub_oproperty_inverse() {
    compare("suboproperty-inverse");
}

#[test]
fn one_inverse() {
    compare("inverse-properties");
}

#[test]
fn one_transitive() {
    compare("transitive-properties");
}

#[test]
fn inverse_transitive() {
    compare("inverse-transitive");
}

#[test]
fn one_annotated_transitive() {
    compare("annotation-on-transitive");
}

#[test]
fn subproperty_chain() {
    compare("subproperty-chain");
}

#[test]
fn annotation_on_annotation() {
    compare("annotation-with-annotation");
}

#[test]
fn non_built_in_annotation_on_annotation() {
    compare("annotation-with-non-builtin-annotation");
}

#[test]
fn sub_annotation() {
    compare("sub-annotation");
}

#[test]
fn data_property() {
    compare("data-property");
}

#[test]
fn named_individual() {
    compare("named-individual");
}

#[test]
fn datatype() {
    compare("datatype");
}

#[test]
fn object_has_value() {
    compare("object-has-value");
}

#[test]
fn object_one_of() {
    compare("object-one-of");
}

#[test]
fn inverse() {
    compare("some-inverse");
}

#[test]
fn object_unqualified_cardinality() {
    compare("object-unqualified-max-cardinality");
}

#[test]
fn object_min_cardinality() {
    compare("object-min-cardinality");
}

#[test]
fn object_max_cardinality() {
    compare("object-max-cardinality");
}

#[test]
fn object_exact_cardinality() {
    compare("object-exact-cardinality");
}

#[test]
fn datatype_alias() {
    compare("datatype-alias");
}

#[test]
fn datatype_intersection() {
    compare("datatype-intersection");
}

#[test]
fn datatype_union() {
    compare("datatype-union");
}

#[test]
fn datatype_complement() {
    compare("datatype-complement");
}

#[test]
fn datatype_some() {
    compare("data-some");
}

#[test]
fn data_only() {
    compare("data-only");
}

#[test]
fn data_exact_cardinality() {
    compare("data-exact-cardinality");
}

#[test]
fn data_property_domain() {
    compare("data-property-domain");
}

#[test]
fn data_property_functional() {
    compare("data-property-functional");
}

#[test]
fn data_property_range() {
    compare("data-property-range");
}

#[test]
fn object_property_asymmetric() {
    compare("object-property-asymmetric");
}

#[test]
fn object_property_domain() {
    compare("object-property-domain");
}

#[test]
fn object_property_functional() {
    compare("object-property-functional");
}

#[test]
fn object_property_inverse_functional() {
    compare("object-property-inverse-functional");
}

#[test]
fn object_property_irreflexive() {
    compare("object-property-irreflexive");
}

#[test]
fn object_property_range() {
    compare("object-property-range");
}

#[test]
fn object_property_reflexive() {
    compare("object-property-reflexive");
}

#[test]
fn object_property_symmetric() {
    compare("object-property-symmetric");
}

#[test]
fn one_some_reversed() {
    compare_two("manual/one-some-reversed-triples", "some");
}

#[test]
fn one_some_property_filler_reversed() {
    compare_two("manual/one-some-property-filler-reversed", "some");
}

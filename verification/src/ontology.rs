//! Ontologies: a header and a collection of annotated axioms.
//!
//! An ontology holds its axioms in the order in which they were last added or
//! merged. Two ontologies are equal when they have the same header and hold the
//! same set of annotated axioms.

use crate::model::axioms::{axiom_copy, axiom_same, Axiom, AxiomView};
use crate::model::entity::{iri_same, option_copy, option_same, vec_copy, IRI};
use crate::model::literal::{Annotation, AnnotationView};
use crate::model::set::{lemma_same_set, vec_included, vec_same_set, vec_union};
use crate::search::{first_index, lemma_first_index, lemma_first_index_is, lemma_first_index_none};
use vstd::prelude::*;
use vstd::std_specs::cmp::PartialEqSpecImpl;

verus! {

/// The kinds of named entity.
#[derive(Clone, Copy, Debug, PartialEq, Eq, Structural, Hash)]
pub enum NamedEntityKind {
    Class,
    Datatype,
    ObjectProperty,
    DataProperty,
    AnnotationProperty,
    NamedIndividual,
}

/// An axiom together with the set of its annotations.
#[derive(Debug)]
pub struct AnnotatedAxiom {
    /// The logical part.
    pub ax: Axiom,
    /// The annotations, read as a set.
    pub ann: Vec<Annotation>,
}

/// The mathematical value of [`AnnotatedAxiom`].
pub struct AnnotatedAxiomView {
    pub ax: AxiomView,
    pub ann: Set<AnnotationView>,
}

impl DeepView for AnnotatedAxiom {
    type V = AnnotatedAxiomView;

    open spec fn deep_view(&self) -> AnnotatedAxiomView {
        AnnotatedAxiomView { ax: self.ax.deep_view(), ann: self.ann.deep_view().to_set() }
    }
}

/// Whether two annotated axioms have the same logical part and the same set of annotations.
pub fn annotated_same(a: &AnnotatedAxiom, b: &AnnotatedAxiom) -> (r: bool)
    ensures
        r == (a.deep_view() == b.deep_view()),
{
    axiom_same(&a.ax, &b.ax) && vec_same_set(&a.ann, &b.ann)
}

/// A copy of an annotated axiom.
pub fn annotated_copy(a: &AnnotatedAxiom) -> (r: AnnotatedAxiom)
    ensures
        r.deep_view() == a.deep_view(),
{
    AnnotatedAxiom { ax: axiom_copy(&a.ax), ann: vec_copy(&a.ann) }
}

impl Clone for AnnotatedAxiom {
    fn clone(&self) -> (r: Self)
        ensures
            r.deep_view() == self.deep_view(),
    {
        annotated_copy(self)
    }
}

impl PartialEq for AnnotatedAxiom {
    fn eq(&self, other: &Self) -> (r: bool) {
        annotated_same(self, other)
    }
}

impl PartialEqSpecImpl for AnnotatedAxiom {
    open spec fn obeys_eq_spec() -> bool {
        true
    }

    open spec fn eq_spec(&self, other: &Self) -> bool {
        self.deep_view() == other.deep_view()
    }
}

impl Eq for AnnotatedAxiom {
}

impl AnnotatedAxiom {
    /// An axiom without annotations.
    pub fn new(ax: Axiom) -> (r: AnnotatedAxiom)
        ensures
            r.deep_view() == (AnnotatedAxiomView { ax: ax.deep_view(), ann: Set::empty() }),
    {
        let ann: Vec<Annotation> = Vec::new();
        assert(ann.deep_view().to_set() =~= Set::<AnnotationView>::empty());
        AnnotatedAxiom { ax, ann }
    }
}

/// The header of an ontology.
#[derive(Debug)]
pub struct OntologyID {
    /// The IRI of the ontology.
    pub iri: Option<IRI>,
    /// The IRI of this version of it.
    pub viri: Option<IRI>,
}

/// The mathematical value of [`OntologyID`].
pub struct OntologyIDView {
    pub iri: Option<Seq<char>>,
    pub viri: Option<Seq<char>>,
}

impl DeepView for OntologyID {
    type V = OntologyIDView;

    open spec fn deep_view(&self) -> OntologyIDView {
        OntologyIDView { iri: self.iri.deep_view(), viri: self.viri.deep_view() }
    }
}

/// An ontology.
#[derive(Debug)]
pub struct Ontology {
    /// The header.
    pub id: OntologyID,
    /// The annotated axioms.
    pub axioms: Vec<AnnotatedAxiom>,
}

/// The mathematical value of [`Ontology`].
pub struct OntologyView {
    pub id: OntologyIDView,
    pub axioms: Seq<AnnotatedAxiomView>,
}

impl DeepView for Ontology {
    type V = OntologyView;

    open spec fn deep_view(&self) -> OntologyView {
        OntologyView { id: self.id.deep_view(), axioms: self.axioms.deep_view() }
    }
}

/// The logical parts of a list of annotated axioms.
pub open spec fn logical_parts(s: Seq<AnnotatedAxiomView>) -> Seq<AxiomView> {
    s.map_values(|a: AnnotatedAxiomView| a.ax)
}

/// Whether no two members of the list have the same logical part.
pub open spec fn logically_distinct(s: Seq<AnnotatedAxiomView>) -> bool {
    forall|i: int, j: int| 0 <= i < j < s.len() ==> (#[trigger] s[i]).ax != (#[trigger] s[j]).ax
}

/// The list after `x` was added as a new member, unless it is one already.
pub open spec fn inserted(s: Seq<AnnotatedAxiomView>, x: AnnotatedAxiomView) -> Seq<
    AnnotatedAxiomView,
> {
    if s.contains(x) {
        s
    } else {
        s.push(x)
    }
}

/// The list after `x` was merged into it. Where a member has the logical part of
/// `x`, the first such member leaves its place, and an axiom with that logical
/// part and the annotations of both comes last. Where none has, `x` comes last.
pub open spec fn merged(s: Seq<AnnotatedAxiomView>, x: AnnotatedAxiomView) -> Seq<
    AnnotatedAxiomView,
> {
    match first_index(logical_parts(s), x.ax) {
        Some(i) => s.remove(i).push(AnnotatedAxiomView { ax: x.ax, ann: s[i].ann.union(x.ann) }),
        None => s.push(x),
    }
}

/// The entity that a declaration declares, with its kind.
pub open spec fn declared(a: AxiomView) -> Option<(NamedEntityKind, Seq<char>)> {
    match a {
        AxiomView::DeclareClass(i) => Some((NamedEntityKind::Class, i)),
        AxiomView::DeclareObjectProperty(i) => Some((NamedEntityKind::ObjectProperty, i)),
        AxiomView::DeclareAnnotationProperty(i) => Some((NamedEntityKind::AnnotationProperty, i)),
        AxiomView::DeclareDataProperty(i) => Some((NamedEntityKind::DataProperty, i)),
        AxiomView::DeclareNamedIndividual(i) => Some((NamedEntityKind::NamedIndividual, i)),
        AxiomView::DeclareDatatype(i) => Some((NamedEntityKind::Datatype, i)),
        _ => None,
    }
}

/// The kind under which `iri` was declared last, if it was declared at all.
pub open spec fn declaration_kind(s: Seq<AnnotatedAxiomView>, iri: Seq<char>) -> Option<
    NamedEntityKind,
>
    decreases s.len(),
{
    if s.len() == 0 {
        None
    } else {
        match declared(s.last().ax) {
            Some((k, i)) => if i == iri {
                Some(k)
            } else {
                declaration_kind(s.drop_last(), iri)
            },
            None => declaration_kind(s.drop_last(), iri),
        }
    }
}

/// Merging keeps the logical parts of a list distinct.
pub proof fn lemma_merged_distinct(s: Seq<AnnotatedAxiomView>, x: AnnotatedAxiomView)
    requires
        logically_distinct(s),
    ensures
        logically_distinct(merged(s, x)),
        merged(s, x).len() > 0,
        merged(s, x).last().ax == x.ax,
        first_index(logical_parts(merged(s, x)), x.ax) == Some(merged(s, x).len() - 1),
{
    let parts = logical_parts(s);
    let r = merged(s, x);
    lemma_first_index(parts, x.ax);
    match first_index(parts, x.ax) {
        Some(i) => {
            assert forall|a: int, b: int| 0 <= a < b < r.len() implies (#[trigger] r[a]).ax != (
            #[trigger] r[b]).ax by {
                let a0 = if a < i { a } else { a + 1 };
                assert(r[a] == s[a0]);
                if b < r.len() - 1 {
                    let b0 = if b < i { b } else { b + 1 };
                    assert(r[b] == s[b0]);
                } else {
                    assert(parts[i] == s[i].ax);
                    if a0 < i {
                        assert(s[a0].ax != s[i].ax);
                    } else {
                        assert(s[i].ax != s[a0].ax);
                    }
                }
            }
        },
        None => {
            assert forall|a: int, b: int| 0 <= a < b < r.len() implies (#[trigger] r[a]).ax != (
            #[trigger] r[b]).ax by {
                if b == s.len() {
                    assert(parts[a] == s[a].ax);
                }
            }
        },
    }
    let rp = logical_parts(r);
    assert forall|j: int| 0 <= j < rp.len() - 1 implies rp[j] != x.ax by {
        assert(r[j].ax != r[r.len() - 1].ax);
    }
    lemma_first_index_is(rp, x.ax, rp.len() - 1);
}

/// Whether the list holds the logical part of `a` with at least the annotations
/// of `a`.
pub open spec fn covers(s: Seq<AnnotatedAxiomView>, a: AnnotatedAxiomView) -> bool {
    exists|j: int| 0 <= j < s.len() && (#[trigger] s[j]).ax == a.ax && a.ann.subset_of(s[j].ann)
}

/// Merging loses nothing: what the list covered before a merge it covers after
/// it, and it covers what was merged.
pub proof fn lemma_merged_covers(
    s: Seq<AnnotatedAxiomView>,
    x: AnnotatedAxiomView,
    a: AnnotatedAxiomView,
)
    ensures
        covers(s, a) ==> covers(merged(s, x), a),
        covers(merged(s, x), x),
{
    let parts = logical_parts(s);
    let r = merged(s, x);
    lemma_first_index(parts, x.ax);
    assert(r.len() > 0);
    let last = r.len() - 1;
    assert(r[last].ax == x.ax && x.ann.subset_of(r[last].ann));
    if covers(s, a) {
        let j = choose|j: int| 0 <= j < s.len() && (#[trigger] s[j]).ax == a.ax && a.ann.subset_of(
            s[j].ann,
        );
        match first_index(parts, x.ax) {
            Some(i) => {
                assert(parts[i] == s[i].ax);
                if j == i {
                    assert(r[last].ax == a.ax && a.ann.subset_of(r[last].ann));
                } else {
                    let k = if j < i {
                        j
                    } else {
                        j - 1
                    };
                    assert(r[k] == s[j]);
                }
            },
            None => {
                assert(r[j] == s[j]);
            },
        }
    }
}

/// Merging into a list that holds the logical part already: the member with
/// that logical part leaves its place, one with the annotations of both comes
/// last, and it is the only member with that logical part.
pub proof fn lemma_merged_unions(s: Seq<AnnotatedAxiomView>, x: AnnotatedAxiomView, i: int)
    requires
        logically_distinct(s),
        0 <= i < s.len(),
        s[i].ax == x.ax,
    ensures
        merged(s, x) == s.remove(i).push(
            AnnotatedAxiomView { ax: x.ax, ann: s[i].ann.union(x.ann) },
        ),
        logically_distinct(merged(s, x)),
{
    let parts = logical_parts(s);
    lemma_first_index(parts, x.ax);
    assert(parts[i] == x.ax);
    let k = first_index(parts, x.ax)->0;
    assert(parts[k] == s[k].ax);
    if k < i {
        assert(s[k].ax != s[i].ax);
    }
    lemma_merged_distinct(s, x);
}

/// Merging an axiom twice, with two sets of annotations, gives what merging it
/// once with the union of the two sets gives: one axiom with that logical part,
/// which carries the annotations of both.
pub proof fn lemma_merge_unions_annotations(
    s: Seq<AnnotatedAxiomView>,
    ax: AxiomView,
    first: Set<AnnotationView>,
    second: Set<AnnotationView>,
)
    requires
        logically_distinct(s),
    ensures
        merged(
            merged(s, AnnotatedAxiomView { ax, ann: first }),
            AnnotatedAxiomView { ax, ann: second },
        ) == merged(s, AnnotatedAxiomView { ax, ann: first.union(second) }),
        logically_distinct(merged(s, AnnotatedAxiomView { ax, ann: first.union(second) })),
{
    let x1 = AnnotatedAxiomView { ax, ann: first };
    let x2 = AnnotatedAxiomView { ax, ann: second };
    let x12 = AnnotatedAxiomView { ax, ann: first.union(second) };
    let m1 = merged(s, x1);
    lemma_merged_distinct(s, x1);
    lemma_merged_distinct(s, x12);
    let last = m1.len() - 1;
    assert(m1.remove(last) =~= m1.drop_last());
    match first_index(logical_parts(s), ax) {
        Some(i) => {
            assert(m1.drop_last() =~= s.remove(i));
            assert(s[i].ann.union(first).union(second) =~= s[i].ann.union(first.union(second)));
        },
        None => {
            assert(m1.drop_last() =~= s);
        },
    }
}

/// The position of the first member with the logical part `ax`.
pub fn find_logical(axioms: &Vec<AnnotatedAxiom>, ax: &Axiom) -> (r: Option<usize>)
    ensures
        match r {
            Some(i) => first_index(logical_parts(axioms.deep_view()), ax.deep_view()) == Some(
                i as int,
            ) && i < axioms.len(),
            None => first_index(logical_parts(axioms.deep_view()), ax.deep_view()) is None,
        },
{
    let ghost parts = logical_parts(axioms.deep_view());
    let mut i: usize = 0;
    while i < axioms.len()
        invariant
            i <= axioms.len(),
            parts == logical_parts(axioms.deep_view()),
            forall|j: int| 0 <= j < i ==> parts[j] != ax.deep_view(),
        decreases axioms.len() - i,
    {
        assert(parts[i as int] == axioms@[i as int].ax.deep_view());
        if axiom_same(&axioms[i].ax, ax) {
            proof {
                lemma_first_index_is(parts, ax.deep_view(), i as int);
            }
            return Some(i);
        }
        i += 1;
    }
    proof {
        lemma_first_index_none(parts, ax.deep_view());
    }
    None
}

/// The kind and name of the entity that `ax` declares, if it is a declaration.
pub fn declared_entity(ax: &Axiom) -> (r: Option<(NamedEntityKind, &IRI)>)
    ensures
        match r {
            Some((k, i)) => declared(ax.deep_view()) == Some((k, i.deep_view())),
            None => declared(ax.deep_view()) is None,
        },
{
    match ax {
        Axiom::DeclareClass(c) => Some((NamedEntityKind::Class, &c.0)),
        Axiom::DeclareObjectProperty(c) => Some((NamedEntityKind::ObjectProperty, &c.0)),
        Axiom::DeclareAnnotationProperty(c) => Some((NamedEntityKind::AnnotationProperty, &c.0)),
        Axiom::DeclareDataProperty(c) => Some((NamedEntityKind::DataProperty, &c.0)),
        Axiom::DeclareNamedIndividual(c) => Some((NamedEntityKind::NamedIndividual, &c.0)),
        Axiom::DeclareDatatype(c) => Some((NamedEntityKind::Datatype, &c.0)),
        _ => None,
    }
}

/// The kind under which `iri` was declared last in the ontology.
pub fn find_declaration_kind(o: &Ontology, iri: &IRI) -> (r: Option<NamedEntityKind>)
    ensures
        r == declaration_kind(o.deep_view().axioms, iri.deep_view()),
{
    let ghost all = o.deep_view().axioms;
    let mut i: usize = o.axioms.len();
    proof {
        assert(all.take(i as int) =~= all);
    }
    while i > 0
        invariant
            i <= o.axioms.len(),
            all == o.deep_view().axioms,
            declaration_kind(all, iri.deep_view()) == declaration_kind(
                all.take(i as int),
                iri.deep_view(),
            ),
        decreases i,
    {
        i -= 1;
        proof {
            assert(all.take(i as int + 1).drop_last() =~= all.take(i as int));
            assert(all.take(i as int + 1).last() == o.axioms@[i as int].deep_view());
        }
        match declared_entity(&o.axioms[i].ax) {
            Some((k, name)) => {
                if iri_same(name, iri) {
                    return Some(k);
                }
            },
            None => {},
        }
    }
    None
}

/// Whether `iri` was declared last as an annotation property.
pub fn is_annotation_property(o: &Ontology, iri: &IRI) -> (r: bool)
    ensures
        r == (declaration_kind(o.deep_view().axioms, iri.deep_view()) == Some(
            NamedEntityKind::AnnotationProperty,
        )),
{
    match find_declaration_kind(o, iri) {
        Some(NamedEntityKind::AnnotationProperty) => true,
        _ => false,
    }
}

/// Merges an annotated axiom into the ontology: an axiom with the same logical
/// part is replaced by one that carries the annotations of both. Returns
/// whether there was one.
pub fn update_logically_equal_axiom(o: &mut Ontology, ax: AnnotatedAxiom) -> (r: bool)
    ensures
        final(o).deep_view().id == old(o).deep_view().id,
        final(o).deep_view().axioms == merged(old(o).deep_view().axioms, ax.deep_view()),
        r == (first_index(logical_parts(old(o).deep_view().axioms), ax.deep_view().ax) is Some),
{
    let ghost before = o.deep_view().axioms;
    let ghost x = ax.deep_view();
    match find_logical(&o.axioms, &ax.ax) {
        Some(i) => {
            let found = o.axioms.remove(i);
            let ann = vec_union(found.ann, ax.ann);
            let both = AnnotatedAxiom { ax: ax.ax, ann };
            o.axioms.push(both);
            proof {
                assert(o.deep_view().axioms =~= before.remove(i as int).push(
                    AnnotatedAxiomView { ax: x.ax, ann: before[i as int].ann.union(x.ann) },
                ));
            }
            true
        },
        None => {
            o.axioms.push(ax);
            proof {
                assert(o.deep_view().axioms =~= before.push(x));
            }
            false
        },
    }
}

impl Ontology {
    /// An ontology without a header and without axioms.
    pub fn new() -> (r: Ontology)
        ensures
            r.deep_view().id == (OntologyIDView { iri: None, viri: None }),
            r.deep_view().axioms == Seq::<AnnotatedAxiomView>::empty(),
    {
        let r = Ontology { id: OntologyID { iri: None, viri: None }, axioms: Vec::new() };
        assert(r.deep_view().axioms =~= Seq::<AnnotatedAxiomView>::empty());
        r
    }

    /// Adds an annotated axiom unless the ontology holds it already. Returns
    /// whether it was added.
    pub fn insert(&mut self, ax: AnnotatedAxiom) -> (r: bool)
        ensures
            final(self).deep_view().id == old(self).deep_view().id,
            final(self).deep_view().axioms == inserted(
                old(self).deep_view().axioms,
                ax.deep_view(),
            ),
            r == !old(self).deep_view().axioms.contains(ax.deep_view()),
    {
        let ghost before = self.deep_view().axioms;
        let mut i: usize = 0;
        while i < self.axioms.len()
            invariant
                i <= self.axioms.len(),
                self.deep_view().axioms == before,
                self.deep_view().id == old(self).deep_view().id,
                forall|j: int| 0 <= j < i ==> before[j] != ax.deep_view(),
            decreases self.axioms.len() - i,
        {
            if annotated_same(&self.axioms[i], &ax) {
                assert(before[i as int] == ax.deep_view());
                return false;
            }
            i += 1;
        }
        self.axioms.push(ax);
        assert(self.deep_view().axioms =~= before.push(ax.deep_view()));
        true
    }

    /// The set of annotated axioms that the ontology holds.
    pub open spec fn axiom_set(&self) -> Set<AnnotatedAxiomView> {
        self.deep_view().axioms.to_set()
    }

    /// Whether the ontology holds the annotated axiom.
    pub fn contains(&self, ax: &AnnotatedAxiom) -> (r: bool)
        ensures
            r == self.axiom_set().contains(ax.deep_view()),
    {
        let mut i: usize = 0;
        while i < self.axioms.len()
            invariant
                i <= self.axioms.len(),
                forall|j: int| 0 <= j < i ==> self.deep_view().axioms[j] != ax.deep_view(),
            decreases self.axioms.len() - i,
        {
            if annotated_same(&self.axioms[i], ax) {
                assert(self.deep_view().axioms[i as int] == ax.deep_view());
                return true;
            }
            i += 1;
        }
        false
    }

    /// The number of annotated axioms held.
    pub fn len(&self) -> (r: usize)
        ensures
            r == self.deep_view().axioms.len(),
    {
        self.axioms.len()
    }
}

/// A copy of a header.
pub fn ontology_id_copy(a: &OntologyID) -> (r: OntologyID)
    ensures
        r.deep_view() == a.deep_view(),
{
    OntologyID { iri: option_copy(&a.iri), viri: option_copy(&a.viri) }
}

impl Clone for Ontology {
    fn clone(&self) -> (r: Self)
        ensures
            r.deep_view() == self.deep_view(),
    {
        Ontology { id: ontology_id_copy(&self.id), axioms: vec_copy(&self.axioms) }
    }
}

impl PartialEq for Ontology {
    fn eq(&self, other: &Self) -> (r: bool) {
        proof {
            lemma_same_set(self.deep_view().axioms, other.deep_view().axioms);
        }
        option_same(&self.id.iri, &other.id.iri) && option_same(&self.id.viri, &other.id.viri)
            && vec_included(&self.axioms, &other.axioms) && vec_included(
            &other.axioms,
            &self.axioms,
        )
    }
}

impl PartialEqSpecImpl for Ontology {
    open spec fn obeys_eq_spec() -> bool {
        true
    }

    open spec fn eq_spec(&self, other: &Self) -> bool {
        &&& self.deep_view().id == other.deep_view().id
        &&& self.axiom_set() == other.axiom_set()
    }
}

impl Eq for Ontology {
}

} // verus!

//! IRIs, the named entities built on them, and helpers for lists of values.

use crate::text::same_text;
use vstd::prelude::*;
use vstd::std_specs::cmp::{PartialEqSpec, PartialEqSpecImpl};

verus! {

/// Whether two lists hold the same values in the same order.
pub fn vec_same<T: DeepView + PartialEq>(a: &Vec<T>, b: &Vec<T>) -> (r: bool)
    requires
        T::obeys_eq_spec(),
        forall|x: T, y: T| #[trigger] x.eq_spec(&y) == (x.deep_view() == y.deep_view()),
    ensures
        r == (a.deep_view() == b.deep_view()),
{
    if a.len() != b.len() {
        assert(a.deep_view().len() != b.deep_view().len());
        return false;
    }
    let mut i: usize = 0;
    while i < a.len()
        invariant
            i <= a.len(),
            a.len() == b.len(),
            T::obeys_eq_spec(),
            forall|x: T, y: T| #[trigger] x.eq_spec(&y) == (x.deep_view() == y.deep_view()),
            forall|j: int| 0 <= j < i ==> a@[j].deep_view() == b@[j].deep_view(),
        decreases a.len() - i,
    {
        if !(a[i] == b[i]) {
            assert(a.deep_view()[i as int] != b.deep_view()[i as int]);
            return false;
        }
        i += 1;
    }
    assert(a.deep_view() =~= b.deep_view());
    true
}

/// A copy of a list.
pub fn vec_copy<T: DeepView + Clone>(a: &Vec<T>) -> (r: Vec<T>)
    requires
        forall|x: T, y: T| #[trigger]
            call_ensures(T::clone, (&x,), y) ==> x.deep_view() == y.deep_view(),
    ensures
        r.deep_view() == a.deep_view(),
{
    let mut r: Vec<T> = Vec::new();
    let mut i: usize = 0;
    while i < a.len()
        invariant
            i <= a.len(),
            r.len() == i,
            forall|x: T, y: T| #[trigger]
            call_ensures(T::clone, (&x,), y) ==> x.deep_view() == y.deep_view(),
            forall|j: int| 0 <= j < i ==> r@[j].deep_view() == a@[j].deep_view(),
        decreases a.len() - i,
    {
        r.push(a[i].clone());
        i += 1;
    }
    assert(r.deep_view() =~= a.deep_view());
    r
}

/// Whether two optional values are the same.
pub fn option_same<T: DeepView + PartialEq>(a: &Option<T>, b: &Option<T>) -> (r: bool)
    requires
        T::obeys_eq_spec(),
        forall|x: T, y: T| #[trigger] x.eq_spec(&y) == (x.deep_view() == y.deep_view()),
    ensures
        r == (a.deep_view() == b.deep_view()),
{
    match (a, b) {
        (Some(x), Some(y)) => *x == *y,
        (None, None) => true,
        _ => false,
    }
}

/// A copy of an optional value.
pub fn option_copy<T: DeepView + Clone>(a: &Option<T>) -> (r: Option<T>)
    requires
        forall|x: T, y: T| #[trigger]
            call_ensures(T::clone, (&x,), y) ==> x.deep_view() == y.deep_view(),
    ensures
        r.deep_view() == a.deep_view(),
{
    match a {
        Some(x) => Some(x.clone()),
        None => None,
    }
}

/// An internationalised resource identifier, held as its text.
#[derive(Debug, Hash)]
pub struct IRI(pub String);

impl DeepView for IRI {
    type V = Seq<char>;

    open spec fn deep_view(&self) -> Seq<char> {
        self.0@
    }
}

impl IRI {
    /// The identifier's text.
    pub fn as_str(&self) -> (r: &str)
        ensures
            r@ == self.deep_view(),
    {
        self.0.as_str()
    }
}

/// Whether two values are the same.
pub fn iri_same(a: &IRI, b: &IRI) -> (r: bool)
    ensures
        r == (a.deep_view() == b.deep_view()),
{
    same_text(a.0.as_str(), b.0.as_str())
}

/// A copy of a value.
pub fn iri_copy(a: &IRI) -> (r: IRI)
    ensures
        r.deep_view() == a.deep_view(),
{
    IRI(a.0.clone())
}

impl Clone for IRI {
    fn clone(&self) -> (r: Self)
        ensures
            r.deep_view() == self.deep_view(),
    {
        iri_copy(self)
    }
}

impl PartialEq for IRI {
    fn eq(&self, other: &Self) -> (r: bool) {
        iri_same(self, other)
    }
}

impl PartialEqSpecImpl for IRI {
    open spec fn obeys_eq_spec() -> bool {
        true
    }

    open spec fn eq_spec(&self, other: &Self) -> bool {
        self.deep_view() == other.deep_view()
    }
}

impl Eq for IRI {
}

/// A named class.
#[derive(Debug, Hash)]
pub struct Class(pub IRI);

impl DeepView for Class {
    type V = Seq<char>;

    open spec fn deep_view(&self) -> Seq<char> {
        self.0.deep_view()
    }
}

/// Whether two values are the same.
pub fn class_same(a: &Class, b: &Class) -> (r: bool)
    ensures
        r == (a.deep_view() == b.deep_view()),
{
    iri_same(&a.0, &b.0)
}

/// A copy of a value.
pub fn class_copy(a: &Class) -> (r: Class)
    ensures
        r.deep_view() == a.deep_view(),
{
    Class(iri_copy(&a.0))
}

impl Clone for Class {
    fn clone(&self) -> (r: Self)
        ensures
            r.deep_view() == self.deep_view(),
    {
        class_copy(self)
    }
}

impl PartialEq for Class {
    fn eq(&self, other: &Self) -> (r: bool) {
        class_same(self, other)
    }
}

impl PartialEqSpecImpl for Class {
    open spec fn obeys_eq_spec() -> bool {
        true
    }

    open spec fn eq_spec(&self, other: &Self) -> bool {
        self.deep_view() == other.deep_view()
    }
}

impl Eq for Class {
}

/// A named datatype.
#[derive(Debug, Hash)]
pub struct Datatype(pub IRI);

impl DeepView for Datatype {
    type V = Seq<char>;

    open spec fn deep_view(&self) -> Seq<char> {
        self.0.deep_view()
    }
}

/// Whether two values are the same.
pub fn datatype_same(a: &Datatype, b: &Datatype) -> (r: bool)
    ensures
        r == (a.deep_view() == b.deep_view()),
{
    iri_same(&a.0, &b.0)
}

/// A copy of a value.
pub fn datatype_copy(a: &Datatype) -> (r: Datatype)
    ensures
        r.deep_view() == a.deep_view(),
{
    Datatype(iri_copy(&a.0))
}

impl Clone for Datatype {
    fn clone(&self) -> (r: Self)
        ensures
            r.deep_view() == self.deep_view(),
    {
        datatype_copy(self)
    }
}

impl PartialEq for Datatype {
    fn eq(&self, other: &Self) -> (r: bool) {
        datatype_same(self, other)
    }
}

impl PartialEqSpecImpl for Datatype {
    open spec fn obeys_eq_spec() -> bool {
        true
    }

    open spec fn eq_spec(&self, other: &Self) -> bool {
        self.deep_view() == other.deep_view()
    }
}

impl Eq for Datatype {
}

/// A named object property.
#[derive(Debug, Hash)]
pub struct ObjectProperty(pub IRI);

impl DeepView for ObjectProperty {
    type V = Seq<char>;

    open spec fn deep_view(&self) -> Seq<char> {
        self.0.deep_view()
    }
}

/// Whether two values are the same.
pub fn object_property_same(a: &ObjectProperty, b: &ObjectProperty) -> (r: bool)
    ensures
        r == (a.deep_view() == b.deep_view()),
{
    iri_same(&a.0, &b.0)
}

/// A copy of a value.
pub fn object_property_copy(a: &ObjectProperty) -> (r: ObjectProperty)
    ensures
        r.deep_view() == a.deep_view(),
{
    ObjectProperty(iri_copy(&a.0))
}

impl Clone for ObjectProperty {
    fn clone(&self) -> (r: Self)
        ensures
            r.deep_view() == self.deep_view(),
    {
        object_property_copy(self)
    }
}

impl PartialEq for ObjectProperty {
    fn eq(&self, other: &Self) -> (r: bool) {
        object_property_same(self, other)
    }
}

impl PartialEqSpecImpl for ObjectProperty {
    open spec fn obeys_eq_spec() -> bool {
        true
    }

    open spec fn eq_spec(&self, other: &Self) -> bool {
        self.deep_view() == other.deep_view()
    }
}

impl Eq for ObjectProperty {
}

/// A named data property.
#[derive(Debug, Hash)]
pub struct DataProperty(pub IRI);

impl DeepView for DataProperty {
    type V = Seq<char>;

    open spec fn deep_view(&self) -> Seq<char> {
        self.0.deep_view()
    }
}

/// Whether two values are the same.
pub fn data_property_same(a: &DataProperty, b: &DataProperty) -> (r: bool)
    ensures
        r == (a.deep_view() == b.deep_view()),
{
    iri_same(&a.0, &b.0)
}

/// A copy of a value.
pub fn data_property_copy(a: &DataProperty) -> (r: DataProperty)
    ensures
        r.deep_view() == a.deep_view(),
{
    DataProperty(iri_copy(&a.0))
}

impl Clone for DataProperty {
    fn clone(&self) -> (r: Self)
        ensures
            r.deep_view() == self.deep_view(),
    {
        data_property_copy(self)
    }
}

impl PartialEq for DataProperty {
    fn eq(&self, other: &Self) -> (r: bool) {
        data_property_same(self, other)
    }
}

impl PartialEqSpecImpl for DataProperty {
    open spec fn obeys_eq_spec() -> bool {
        true
    }

    open spec fn eq_spec(&self, other: &Self) -> bool {
        self.deep_view() == other.deep_view()
    }
}

impl Eq for DataProperty {
}

/// A named annotation property.
#[derive(Debug, Hash)]
pub struct AnnotationProperty(pub IRI);

impl DeepView for AnnotationProperty {
    type V = Seq<char>;

    open spec fn deep_view(&self) -> Seq<char> {
        self.0.deep_view()
    }
}

/// Whether two values are the same.
pub fn annotation_property_same(a: &AnnotationProperty, b: &AnnotationProperty) -> (r: bool)
    ensures
        r == (a.deep_view() == b.deep_view()),
{
    iri_same(&a.0, &b.0)
}

/// A copy of a value.
pub fn annotation_property_copy(a: &AnnotationProperty) -> (r: AnnotationProperty)
    ensures
        r.deep_view() == a.deep_view(),
{
    AnnotationProperty(iri_copy(&a.0))
}

impl Clone for AnnotationProperty {
    fn clone(&self) -> (r: Self)
        ensures
            r.deep_view() == self.deep_view(),
    {
        annotation_property_copy(self)
    }
}

impl PartialEq for AnnotationProperty {
    fn eq(&self, other: &Self) -> (r: bool) {
        annotation_property_same(self, other)
    }
}

impl PartialEqSpecImpl for AnnotationProperty {
    open spec fn obeys_eq_spec() -> bool {
        true
    }

    open spec fn eq_spec(&self, other: &Self) -> bool {
        self.deep_view() == other.deep_view()
    }
}

impl Eq for AnnotationProperty {
}

/// A named individual.
#[derive(Debug, Hash)]
pub struct NamedIndividual(pub IRI);

impl DeepView for NamedIndividual {
    type V = Seq<char>;

    open spec fn deep_view(&self) -> Seq<char> {
        self.0.deep_view()
    }
}

/// Whether two values are the same.
pub fn named_individual_same(a: &NamedIndividual, b: &NamedIndividual) -> (r: bool)
    ensures
        r == (a.deep_view() == b.deep_view()),
{
    iri_same(&a.0, &b.0)
}

/// A copy of a value.
pub fn named_individual_copy(a: &NamedIndividual) -> (r: NamedIndividual)
    ensures
        r.deep_view() == a.deep_view(),
{
    NamedIndividual(iri_copy(&a.0))
}

impl Clone for NamedIndividual {
    fn clone(&self) -> (r: Self)
        ensures
            r.deep_view() == self.deep_view(),
    {
        named_individual_copy(self)
    }
}

impl PartialEq for NamedIndividual {
    fn eq(&self, other: &Self) -> (r: bool) {
        named_individual_same(self, other)
    }
}

impl PartialEqSpecImpl for NamedIndividual {
    open spec fn obeys_eq_spec() -> bool {
        true
    }

    open spec fn eq_spec(&self, other: &Self) -> bool {
        self.deep_view() == other.deep_view()
    }
}

impl Eq for NamedIndividual {
}

/// A factory of IRIs and of the entities named by them.
#[derive(Debug)]
pub struct Build {}

impl Build {
    /// A new factory.
    pub fn new() -> (r: Build) {
        Build {  }
    }

    /// The IRI whose text is `s`.
    pub fn iri(&self, s: &str) -> (r: IRI)
        ensures
            r.deep_view() == s@,
    {
        IRI(s.to_owned())
    }

    /// The class named `s`.
    pub fn class(&self, s: &str) -> (r: Class)
        ensures
            r.deep_view() == s@,
    {
        Class(self.iri(s))
    }

    /// The datatype named `s`.
    pub fn datatype(&self, s: &str) -> (r: Datatype)
        ensures
            r.deep_view() == s@,
    {
        Datatype(self.iri(s))
    }

    /// The object property named `s`.
    pub fn object_property(&self, s: &str) -> (r: ObjectProperty)
        ensures
            r.deep_view() == s@,
    {
        ObjectProperty(self.iri(s))
    }

    /// The data property named `s`.
    pub fn data_property(&self, s: &str) -> (r: DataProperty)
        ensures
            r.deep_view() == s@,
    {
        DataProperty(self.iri(s))
    }

    /// The annotation property named `s`.
    pub fn annotation_property(&self, s: &str) -> (r: AnnotationProperty)
        ensures
            r.deep_view() == s@,
    {
        AnnotationProperty(self.iri(s))
    }

    /// The individual named `s`.
    pub fn named_individual(&self, s: &str) -> (r: NamedIndividual)
        ensures
            r.deep_view() == s@,
    {
        NamedIndividual(self.iri(s))
    }

}

} // verus!

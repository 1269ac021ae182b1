//! Property expressions, data ranges and class expressions.

use crate::model::entity::{
    annotation_property_copy, annotation_property_same, class_copy, class_same, data_property_copy,
    data_property_same, datatype_copy, datatype_same, named_individual_copy, named_individual_same,
    object_property_copy, object_property_same, vec_copy, vec_same, AnnotationProperty, Class,
    DataProperty, Datatype, NamedIndividual, ObjectProperty,
};
use crate::model::literal::{literal_copy, literal_same, Literal, LiteralView};
use vstd::prelude::*;
use vstd::std_specs::cmp::PartialEqSpecImpl;

verus! {

/// An object property, or the inverse of one.
#[derive(Debug, Hash)]
pub enum ObjectPropertyExpression {
    ObjectProperty(ObjectProperty),
    InverseObjectProperty(ObjectProperty),
}

/// The mathematical value of [`ObjectPropertyExpression`].
pub enum ObjectPropertyExpressionView {
    ObjectProperty(Seq<char>),
    InverseObjectProperty(Seq<char>),
}

/// The mathematical value of a value.
pub open spec fn object_property_expression_view(
    x: ObjectPropertyExpression,
) -> ObjectPropertyExpressionView
{
    match x {
        ObjectPropertyExpression::ObjectProperty(p_0) => {
            ObjectPropertyExpressionView::ObjectProperty(p_0.deep_view())
        },
        ObjectPropertyExpression::InverseObjectProperty(p_0) => {
            ObjectPropertyExpressionView::InverseObjectProperty(p_0.deep_view())
        },
    }
}

impl DeepView for ObjectPropertyExpression {
    type V = ObjectPropertyExpressionView;

    open spec fn deep_view(&self) -> ObjectPropertyExpressionView {
        object_property_expression_view(*self)
    }
}

/// Whether two values are the same.
pub fn object_property_expression_same(
    a: &ObjectPropertyExpression,
    b: &ObjectPropertyExpression,
) -> (r: bool)
    ensures
        r == (a.deep_view() == b.deep_view()),
{
    match (a, b) {
        (
            ObjectPropertyExpression::ObjectProperty(a_0),
            ObjectPropertyExpression::ObjectProperty(b_0),
        ) => {
            object_property_same(a_0, b_0)
        },
        (
            ObjectPropertyExpression::InverseObjectProperty(a_0),
            ObjectPropertyExpression::InverseObjectProperty(b_0),
        ) => {
            object_property_same(a_0, b_0)
        },
        _ => false,
    }
}

/// A copy of a value.
pub fn object_property_expression_copy(
    a: &ObjectPropertyExpression,
) -> (r: ObjectPropertyExpression)
    ensures
        r.deep_view() == a.deep_view(),
{
    match a {
        ObjectPropertyExpression::ObjectProperty(a_0) => {
            ObjectPropertyExpression::ObjectProperty(object_property_copy(a_0))
        },
        ObjectPropertyExpression::InverseObjectProperty(a_0) => {
            ObjectPropertyExpression::InverseObjectProperty(object_property_copy(a_0))
        },
    }
}

impl Clone for ObjectPropertyExpression {
    fn clone(&self) -> (r: Self)
        ensures
            r.deep_view() == self.deep_view(),
    {
        object_property_expression_copy(self)
    }
}

impl PartialEq for ObjectPropertyExpression {
    fn eq(&self, other: &Self) -> (r: bool) {
        object_property_expression_same(self, other)
    }
}

impl PartialEqSpecImpl for ObjectPropertyExpression {
    open spec fn obeys_eq_spec() -> bool {
        true
    }

    open spec fn eq_spec(&self, other: &Self) -> bool {
        self.deep_view() == other.deep_view()
    }
}

impl Eq for ObjectPropertyExpression {
}

/// What may stand as the sub-property of an object property axiom.
#[derive(Debug, Hash)]
pub enum SubObjectPropertyExpression {
    /// A chain of properties.
    ObjectPropertyChain(Vec<ObjectPropertyExpression>),
    ObjectPropertyExpression(ObjectPropertyExpression),
}

/// The mathematical value of [`SubObjectPropertyExpression`].
pub enum SubObjectPropertyExpressionView {
    ObjectPropertyChain(Seq<ObjectPropertyExpressionView>),
    ObjectPropertyExpression(ObjectPropertyExpressionView),
}

/// The mathematical value of a value.
pub open spec fn sub_object_property_expression_view(
    x: SubObjectPropertyExpression,
) -> SubObjectPropertyExpressionView
{
    match x {
        SubObjectPropertyExpression::ObjectPropertyChain(p_0) => {
            SubObjectPropertyExpressionView::ObjectPropertyChain(p_0.deep_view())
        },
        SubObjectPropertyExpression::ObjectPropertyExpression(p_0) => {
            SubObjectPropertyExpressionView::ObjectPropertyExpression(p_0.deep_view())
        },
    }
}

impl DeepView for SubObjectPropertyExpression {
    type V = SubObjectPropertyExpressionView;

    open spec fn deep_view(&self) -> SubObjectPropertyExpressionView {
        sub_object_property_expression_view(*self)
    }
}

/// Whether two values are the same.
pub fn sub_object_property_expression_same(
    a: &SubObjectPropertyExpression,
    b: &SubObjectPropertyExpression,
) -> (r: bool)
    ensures
        r == (a.deep_view() == b.deep_view()),
{
    match (a, b) {
        (
            SubObjectPropertyExpression::ObjectPropertyChain(a_0),
            SubObjectPropertyExpression::ObjectPropertyChain(b_0),
        ) => {
            vec_same(a_0, b_0)
        },
        (
            SubObjectPropertyExpression::ObjectPropertyExpression(a_0),
            SubObjectPropertyExpression::ObjectPropertyExpression(b_0),
        ) => {
            object_property_expression_same(a_0, b_0)
        },
        _ => false,
    }
}

/// A copy of a value.
pub fn sub_object_property_expression_copy(
    a: &SubObjectPropertyExpression,
) -> (r: SubObjectPropertyExpression)
    ensures
        r.deep_view() == a.deep_view(),
{
    match a {
        SubObjectPropertyExpression::ObjectPropertyChain(a_0) => {
            SubObjectPropertyExpression::ObjectPropertyChain(vec_copy(a_0))
        },
        SubObjectPropertyExpression::ObjectPropertyExpression(a_0) => {
            SubObjectPropertyExpression::ObjectPropertyExpression(
                object_property_expression_copy(a_0),
            )
        },
    }
}

impl Clone for SubObjectPropertyExpression {
    fn clone(&self) -> (r: Self)
        ensures
            r.deep_view() == self.deep_view(),
    {
        sub_object_property_expression_copy(self)
    }
}

impl PartialEq for SubObjectPropertyExpression {
    fn eq(&self, other: &Self) -> (r: bool) {
        sub_object_property_expression_same(self, other)
    }
}

impl PartialEqSpecImpl for SubObjectPropertyExpression {
    open spec fn obeys_eq_spec() -> bool {
        true
    }

    open spec fn eq_spec(&self, other: &Self) -> bool {
        self.deep_view() == other.deep_view()
    }
}

impl Eq for SubObjectPropertyExpression {
}

/// A property of any of the three kinds.
#[derive(Debug, Hash)]
pub enum PropertyExpression {
    ObjectPropertyExpression(ObjectPropertyExpression),
    DataProperty(DataProperty),
    AnnotationProperty(AnnotationProperty),
}

/// The mathematical value of [`PropertyExpression`].
pub enum PropertyExpressionView {
    ObjectPropertyExpression(ObjectPropertyExpressionView),
    DataProperty(Seq<char>),
    AnnotationProperty(Seq<char>),
}

/// The mathematical value of a value.
pub open spec fn property_expression_view(x: PropertyExpression) -> PropertyExpressionView
{
    match x {
        PropertyExpression::ObjectPropertyExpression(p_0) => {
            PropertyExpressionView::ObjectPropertyExpression(p_0.deep_view())
        },
        PropertyExpression::DataProperty(p_0) => {
            PropertyExpressionView::DataProperty(p_0.deep_view())
        },
        PropertyExpression::AnnotationProperty(p_0) => {
            PropertyExpressionView::AnnotationProperty(p_0.deep_view())
        },
    }
}

impl DeepView for PropertyExpression {
    type V = PropertyExpressionView;

    open spec fn deep_view(&self) -> PropertyExpressionView {
        property_expression_view(*self)
    }
}

/// Whether two values are the same.
pub fn property_expression_same(a: &PropertyExpression, b: &PropertyExpression) -> (r: bool)
    ensures
        r == (a.deep_view() == b.deep_view()),
{
    match (a, b) {
        (
            PropertyExpression::ObjectPropertyExpression(a_0),
            PropertyExpression::ObjectPropertyExpression(b_0),
        ) => {
            object_property_expression_same(a_0, b_0)
        },
        (PropertyExpression::DataProperty(a_0), PropertyExpression::DataProperty(b_0)) => {
            data_property_same(a_0, b_0)
        },
        (
            PropertyExpression::AnnotationProperty(a_0),
            PropertyExpression::AnnotationProperty(b_0),
        ) => {
            annotation_property_same(a_0, b_0)
        },
        _ => false,
    }
}

/// A copy of a value.
pub fn property_expression_copy(a: &PropertyExpression) -> (r: PropertyExpression)
    ensures
        r.deep_view() == a.deep_view(),
{
    match a {
        PropertyExpression::ObjectPropertyExpression(a_0) => {
            PropertyExpression::ObjectPropertyExpression(object_property_expression_copy(a_0))
        },
        PropertyExpression::DataProperty(a_0) => {
            PropertyExpression::DataProperty(data_property_copy(a_0))
        },
        PropertyExpression::AnnotationProperty(a_0) => {
            PropertyExpression::AnnotationProperty(annotation_property_copy(a_0))
        },
    }
}

impl Clone for PropertyExpression {
    fn clone(&self) -> (r: Self)
        ensures
            r.deep_view() == self.deep_view(),
    {
        property_expression_copy(self)
    }
}

impl PartialEq for PropertyExpression {
    fn eq(&self, other: &Self) -> (r: bool) {
        property_expression_same(self, other)
    }
}

impl PartialEqSpecImpl for PropertyExpression {
    open spec fn obeys_eq_spec() -> bool {
        true
    }

    open spec fn eq_spec(&self, other: &Self) -> bool {
        self.deep_view() == other.deep_view()
    }
}

impl Eq for PropertyExpression {
}

/// A data range: a set of literal values.
#[derive(Debug, Hash)]
pub enum DataRange {
    Datatype(Datatype),
    DataIntersectionOf(Vec<DataRange>),
    DataUnionOf(Vec<DataRange>),
    DataComplementOf(Box<DataRange>),
    DataOneOf(Vec<Literal>),
}

/// The mathematical value of [`DataRange`].
pub enum DataRangeView {
    Datatype(Seq<char>),
    DataIntersectionOf(Seq<DataRangeView>),
    DataUnionOf(Seq<DataRangeView>),
    DataComplementOf(Box<DataRangeView>),
    DataOneOf(Seq<LiteralView>),
}

/// The mathematical value of an expression.
pub open spec fn data_range_view(x: DataRange) -> DataRangeView
    decreases x,
{
    match x {
        DataRange::Datatype(p_0) => DataRangeView::Datatype(p_0.deep_view()),
        DataRange::DataIntersectionOf(p_0) => DataRangeView::DataIntersectionOf(
            Seq::new(
                p_0@.len(),
                |i: int|
                    if 0 <= i < p_0@.len() {
                        data_range_view(p_0@[i])
                    } else {
                        arbitrary()
                    },
            ),
        ),
        DataRange::DataUnionOf(p_0) => DataRangeView::DataUnionOf(
            Seq::new(
                p_0@.len(),
                |i: int|
                    if 0 <= i < p_0@.len() {
                        data_range_view(p_0@[i])
                    } else {
                        arbitrary()
                    },
            ),
        ),
        DataRange::DataComplementOf(p_0) => {
            DataRangeView::DataComplementOf(Box::new(data_range_view(*p_0)))
        },
        DataRange::DataOneOf(p_0) => DataRangeView::DataOneOf(p_0.deep_view()),
    }
}

impl DeepView for DataRange {
    type V = DataRangeView;

    open spec fn deep_view(&self) -> DataRangeView {
        data_range_view(*self)
    }
}

/// Whether two lists hold the same values in the same order.
pub fn data_range_list_same(a: &Vec<DataRange>, b: &Vec<DataRange>) -> (r: bool)
    ensures
        r == (a.deep_view() == b.deep_view()),
    decreases a,
{
    if a.len() != b.len() {
        assert(a.deep_view().len() != b.deep_view().len());
        return false;
    }
    let mut i: usize = 0;
    while i < a.len()
        invariant
            i <= a.len(),
            a.len() == b.len(),
            forall|j: int| 0 <= j < i ==> a@[j].deep_view() == b@[j].deep_view(),
        decreases a.len() - i,
    {
        if !data_range_same(&a[i], &b[i]) {
            assert(a.deep_view()[i as int] != b.deep_view()[i as int]);
            return false;
        }
        i += 1;
    }
    assert(a.deep_view() =~= b.deep_view());
    true
}

/// A copy of a list.
pub fn data_range_list_copy(a: &Vec<DataRange>) -> (r: Vec<DataRange>)
    ensures
        r.deep_view() == a.deep_view(),
    decreases a,
{
    let mut r: Vec<DataRange> = Vec::new();
    let mut i: usize = 0;
    while i < a.len()
        invariant
            i <= a.len(),
            r.len() == i,
            forall|j: int| 0 <= j < i ==> r@[j].deep_view() == a@[j].deep_view(),
        decreases a.len() - i,
    {
        r.push(data_range_copy(&a[i]));
        i += 1;
    }
    assert(r.deep_view() =~= a.deep_view());
    r
}

/// The value of an expression over a list is the same expression over the values of the list.
pub proof fn lemma_data_range_lists(v: Vec<DataRange>)
    ensures
        DataRange::DataIntersectionOf(v).deep_view()
            == DataRangeView::DataIntersectionOf(v.deep_view()),
        DataRange::DataUnionOf(v).deep_view()
            == DataRangeView::DataUnionOf(v.deep_view()),
{
    let whole = DataRange::DataIntersectionOf(v).deep_view();
    assert(whole->DataIntersectionOf_0 =~= v.deep_view());
    let whole = DataRange::DataUnionOf(v).deep_view();
    assert(whole->DataUnionOf_0 =~= v.deep_view());
}

/// Whether two values are the same.
pub fn data_range_same(a: &DataRange, b: &DataRange) -> (r: bool)
    ensures
        r == (a.deep_view() == b.deep_view()),
    decreases a,
{
    match (a, b) {
        (DataRange::Datatype(a_0), DataRange::Datatype(b_0)) => datatype_same(a_0, b_0),
        (DataRange::DataIntersectionOf(a_0), DataRange::DataIntersectionOf(b_0)) => {
            proof {
                assert(a_0.deep_view() =~= a.deep_view()->DataIntersectionOf_0);
                assert(b_0.deep_view() =~= b.deep_view()->DataIntersectionOf_0);
            }
            data_range_list_same(a_0, b_0)
        },
        (DataRange::DataUnionOf(a_0), DataRange::DataUnionOf(b_0)) => {
            proof {
                assert(a_0.deep_view() =~= a.deep_view()->DataUnionOf_0);
                assert(b_0.deep_view() =~= b.deep_view()->DataUnionOf_0);
            }
            data_range_list_same(a_0, b_0)
        },
        (DataRange::DataComplementOf(a_0), DataRange::DataComplementOf(b_0)) => {
            data_range_same(a_0, b_0)
        },
        (DataRange::DataOneOf(a_0), DataRange::DataOneOf(b_0)) => vec_same(a_0, b_0),
        _ => false,
    }
}

/// A copy of a value.
pub fn data_range_copy(a: &DataRange) -> (r: DataRange)
    ensures
        r.deep_view() == a.deep_view(),
    decreases a,
{
    match a {
        DataRange::Datatype(a_0) => DataRange::Datatype(datatype_copy(a_0)),
        DataRange::DataIntersectionOf(a_0) => {
            let c_0 = data_range_list_copy(a_0);
            let r = DataRange::DataIntersectionOf(c_0);
            proof {
                assert(a_0.deep_view() =~= a.deep_view()->DataIntersectionOf_0);
                assert(c_0.deep_view() =~= r.deep_view()->DataIntersectionOf_0);
            }
            r
        },
        DataRange::DataUnionOf(a_0) => {
            let c_0 = data_range_list_copy(a_0);
            let r = DataRange::DataUnionOf(c_0);
            proof {
                assert(a_0.deep_view() =~= a.deep_view()->DataUnionOf_0);
                assert(c_0.deep_view() =~= r.deep_view()->DataUnionOf_0);
            }
            r
        },
        DataRange::DataComplementOf(a_0) => {
            DataRange::DataComplementOf(Box::new(data_range_copy(a_0)))
        },
        DataRange::DataOneOf(a_0) => DataRange::DataOneOf(vec_copy(a_0)),
    }
}

impl Clone for DataRange {
    fn clone(&self) -> (r: Self)
        ensures
            r.deep_view() == self.deep_view(),
    {
        data_range_copy(self)
    }
}

impl PartialEq for DataRange {
    fn eq(&self, other: &Self) -> (r: bool) {
        data_range_same(self, other)
    }
}

impl PartialEqSpecImpl for DataRange {
    open spec fn obeys_eq_spec() -> bool {
        true
    }

    open spec fn eq_spec(&self, other: &Self) -> bool {
        self.deep_view() == other.deep_view()
    }
}

impl Eq for DataRange {
}

/// A class expression: a possibly nested description of a class.
#[derive(Debug, Hash)]
#[allow(inconsistent_fields)]
pub enum ClassExpression {
    Class(Class),
    ObjectIntersectionOf(Vec<ClassExpression>),
    ObjectUnionOf(Vec<ClassExpression>),
    ObjectComplementOf(Box<ClassExpression>),
    ObjectOneOf(Vec<NamedIndividual>),
    ObjectSomeValuesFrom { ope: ObjectPropertyExpression, bce: Box<ClassExpression> },
    ObjectAllValuesFrom { ope: ObjectPropertyExpression, bce: Box<ClassExpression> },
    ObjectHasValue { ope: ObjectPropertyExpression, i: NamedIndividual },
    ObjectMinCardinality { n: u32, ope: ObjectPropertyExpression, bce: Box<ClassExpression> },
    ObjectMaxCardinality { n: u32, ope: ObjectPropertyExpression, bce: Box<ClassExpression> },
    ObjectExactCardinality { n: u32, ope: ObjectPropertyExpression, bce: Box<ClassExpression> },
    DataSomeValuesFrom { dp: DataProperty, dr: DataRange },
    DataAllValuesFrom { dp: DataProperty, dr: DataRange },
    DataHasValue { dp: DataProperty, l: Literal },
    DataMinCardinality { n: u32, dp: DataProperty, dr: DataRange },
    DataMaxCardinality { n: u32, dp: DataProperty, dr: DataRange },
    DataExactCardinality { n: u32, dp: DataProperty, dr: DataRange },
}

/// The mathematical value of [`ClassExpression`].
#[allow(inconsistent_fields)]
pub enum ClassExpressionView {
    Class(Seq<char>),
    ObjectIntersectionOf(Seq<ClassExpressionView>),
    ObjectUnionOf(Seq<ClassExpressionView>),
    ObjectComplementOf(Box<ClassExpressionView>),
    ObjectOneOf(Seq<Seq<char>>),
    ObjectSomeValuesFrom { ope: ObjectPropertyExpressionView, bce: Box<ClassExpressionView> },
    ObjectAllValuesFrom { ope: ObjectPropertyExpressionView, bce: Box<ClassExpressionView> },
    ObjectHasValue { ope: ObjectPropertyExpressionView, i: Seq<char> },
    ObjectMinCardinality {
        n: u32,
        ope: ObjectPropertyExpressionView,
        bce: Box<ClassExpressionView>,
    },
    ObjectMaxCardinality {
        n: u32,
        ope: ObjectPropertyExpressionView,
        bce: Box<ClassExpressionView>,
    },
    ObjectExactCardinality {
        n: u32,
        ope: ObjectPropertyExpressionView,
        bce: Box<ClassExpressionView>,
    },
    DataSomeValuesFrom { dp: Seq<char>, dr: DataRangeView },
    DataAllValuesFrom { dp: Seq<char>, dr: DataRangeView },
    DataHasValue { dp: Seq<char>, l: LiteralView },
    DataMinCardinality { n: u32, dp: Seq<char>, dr: DataRangeView },
    DataMaxCardinality { n: u32, dp: Seq<char>, dr: DataRangeView },
    DataExactCardinality { n: u32, dp: Seq<char>, dr: DataRangeView },
}

/// The mathematical value of an expression.
pub open spec fn class_expression_view(x: ClassExpression) -> ClassExpressionView
    decreases x,
{
    match x {
        ClassExpression::Class(p_0) => ClassExpressionView::Class(p_0.deep_view()),
        ClassExpression::ObjectIntersectionOf(p_0) => ClassExpressionView::ObjectIntersectionOf(
            Seq::new(
                p_0@.len(),
                |i: int|
                    if 0 <= i < p_0@.len() {
                        class_expression_view(p_0@[i])
                    } else {
                        arbitrary()
                    },
            ),
        ),
        ClassExpression::ObjectUnionOf(p_0) => ClassExpressionView::ObjectUnionOf(
            Seq::new(
                p_0@.len(),
                |i: int|
                    if 0 <= i < p_0@.len() {
                        class_expression_view(p_0@[i])
                    } else {
                        arbitrary()
                    },
            ),
        ),
        ClassExpression::ObjectComplementOf(p_0) => {
            ClassExpressionView::ObjectComplementOf(Box::new(class_expression_view(*p_0)))
        },
        ClassExpression::ObjectOneOf(p_0) => ClassExpressionView::ObjectOneOf(p_0.deep_view()),
        ClassExpression::ObjectSomeValuesFrom { ope: p_ope, bce: p_bce } => {
            ClassExpressionView::ObjectSomeValuesFrom {
                ope: p_ope.deep_view(),
                bce: Box::new(class_expression_view(*p_bce)),
            }
        },
        ClassExpression::ObjectAllValuesFrom { ope: p_ope, bce: p_bce } => {
            ClassExpressionView::ObjectAllValuesFrom {
                ope: p_ope.deep_view(),
                bce: Box::new(class_expression_view(*p_bce)),
            }
        },
        ClassExpression::ObjectHasValue { ope: p_ope, i: p_i } => {
            ClassExpressionView::ObjectHasValue { ope: p_ope.deep_view(), i: p_i.deep_view() }
        },
        ClassExpression::ObjectMinCardinality { n: p_n, ope: p_ope, bce: p_bce } => {
            ClassExpressionView::ObjectMinCardinality {
                n: p_n,
                ope: p_ope.deep_view(),
                bce: Box::new(class_expression_view(*p_bce)),
            }
        },
        ClassExpression::ObjectMaxCardinality { n: p_n, ope: p_ope, bce: p_bce } => {
            ClassExpressionView::ObjectMaxCardinality {
                n: p_n,
                ope: p_ope.deep_view(),
                bce: Box::new(class_expression_view(*p_bce)),
            }
        },
        ClassExpression::ObjectExactCardinality { n: p_n, ope: p_ope, bce: p_bce } => {
            ClassExpressionView::ObjectExactCardinality {
                n: p_n,
                ope: p_ope.deep_view(),
                bce: Box::new(class_expression_view(*p_bce)),
            }
        },
        ClassExpression::DataSomeValuesFrom { dp: p_dp, dr: p_dr } => {
            ClassExpressionView::DataSomeValuesFrom { dp: p_dp.deep_view(), dr: p_dr.deep_view() }
        },
        ClassExpression::DataAllValuesFrom { dp: p_dp, dr: p_dr } => {
            ClassExpressionView::DataAllValuesFrom { dp: p_dp.deep_view(), dr: p_dr.deep_view() }
        },
        ClassExpression::DataHasValue { dp: p_dp, l: p_l } => {
            ClassExpressionView::DataHasValue { dp: p_dp.deep_view(), l: p_l.deep_view() }
        },
        ClassExpression::DataMinCardinality { n: p_n, dp: p_dp, dr: p_dr } => {
            ClassExpressionView::DataMinCardinality {
                n: p_n,
                dp: p_dp.deep_view(),
                dr: p_dr.deep_view(),
            }
        },
        ClassExpression::DataMaxCardinality { n: p_n, dp: p_dp, dr: p_dr } => {
            ClassExpressionView::DataMaxCardinality {
                n: p_n,
                dp: p_dp.deep_view(),
                dr: p_dr.deep_view(),
            }
        },
        ClassExpression::DataExactCardinality { n: p_n, dp: p_dp, dr: p_dr } => {
            ClassExpressionView::DataExactCardinality {
                n: p_n,
                dp: p_dp.deep_view(),
                dr: p_dr.deep_view(),
            }
        },
    }
}

impl DeepView for ClassExpression {
    type V = ClassExpressionView;

    open spec fn deep_view(&self) -> ClassExpressionView {
        class_expression_view(*self)
    }
}

/// Whether two lists hold the same values in the same order.
pub fn class_expression_list_same(a: &Vec<ClassExpression>, b: &Vec<ClassExpression>) -> (r: bool)
    ensures
        r == (a.deep_view() == b.deep_view()),
    decreases a,
{
    if a.len() != b.len() {
        assert(a.deep_view().len() != b.deep_view().len());
        return false;
    }
    let mut i: usize = 0;
    while i < a.len()
        invariant
            i <= a.len(),
            a.len() == b.len(),
            forall|j: int| 0 <= j < i ==> a@[j].deep_view() == b@[j].deep_view(),
        decreases a.len() - i,
    {
        if !class_expression_same(&a[i], &b[i]) {
            assert(a.deep_view()[i as int] != b.deep_view()[i as int]);
            return false;
        }
        i += 1;
    }
    assert(a.deep_view() =~= b.deep_view());
    true
}

/// A copy of a list.
pub fn class_expression_list_copy(a: &Vec<ClassExpression>) -> (r: Vec<ClassExpression>)
    ensures
        r.deep_view() == a.deep_view(),
    decreases a,
{
    let mut r: Vec<ClassExpression> = Vec::new();
    let mut i: usize = 0;
    while i < a.len()
        invariant
            i <= a.len(),
            r.len() == i,
            forall|j: int| 0 <= j < i ==> r@[j].deep_view() == a@[j].deep_view(),
        decreases a.len() - i,
    {
        r.push(class_expression_copy(&a[i]));
        i += 1;
    }
    assert(r.deep_view() =~= a.deep_view());
    r
}

/// The value of an expression over a list is the same expression over the values of the list.
pub proof fn lemma_class_expression_lists(v: Vec<ClassExpression>)
    ensures
        ClassExpression::ObjectIntersectionOf(v).deep_view()
            == ClassExpressionView::ObjectIntersectionOf(v.deep_view()),
        ClassExpression::ObjectUnionOf(v).deep_view()
            == ClassExpressionView::ObjectUnionOf(v.deep_view()),
{
    let whole = ClassExpression::ObjectIntersectionOf(v).deep_view();
    assert(whole->ObjectIntersectionOf_0 =~= v.deep_view());
    let whole = ClassExpression::ObjectUnionOf(v).deep_view();
    assert(whole->ObjectUnionOf_0 =~= v.deep_view());
}

/// Whether two values are the same.
pub fn class_expression_same(a: &ClassExpression, b: &ClassExpression) -> (r: bool)
    ensures
        r == (a.deep_view() == b.deep_view()),
    decreases a,
{
    match (a, b) {
        (ClassExpression::Class(a_0), ClassExpression::Class(b_0)) => class_same(a_0, b_0),
        (
            ClassExpression::ObjectIntersectionOf(a_0),
            ClassExpression::ObjectIntersectionOf(b_0),
        ) => {
            proof {
                assert(a_0.deep_view() =~= a.deep_view()->ObjectIntersectionOf_0);
                assert(b_0.deep_view() =~= b.deep_view()->ObjectIntersectionOf_0);
            }
            class_expression_list_same(a_0, b_0)
        },
        (ClassExpression::ObjectUnionOf(a_0), ClassExpression::ObjectUnionOf(b_0)) => {
            proof {
                assert(a_0.deep_view() =~= a.deep_view()->ObjectUnionOf_0);
                assert(b_0.deep_view() =~= b.deep_view()->ObjectUnionOf_0);
            }
            class_expression_list_same(a_0, b_0)
        },
        (ClassExpression::ObjectComplementOf(a_0), ClassExpression::ObjectComplementOf(b_0)) => {
            class_expression_same(a_0, b_0)
        },
        (ClassExpression::ObjectOneOf(a_0), ClassExpression::ObjectOneOf(b_0)) => {
            vec_same(a_0, b_0)
        },
        (
            ClassExpression::ObjectSomeValuesFrom { ope: a_ope, bce: a_bce },
            ClassExpression::ObjectSomeValuesFrom { ope: b_ope, bce: b_bce },
        ) => {
            object_property_expression_same(a_ope, b_ope) && class_expression_same(a_bce, b_bce)
        },
        (
            ClassExpression::ObjectAllValuesFrom { ope: a_ope, bce: a_bce },
            ClassExpression::ObjectAllValuesFrom { ope: b_ope, bce: b_bce },
        ) => {
            object_property_expression_same(a_ope, b_ope) && class_expression_same(a_bce, b_bce)
        },
        (
            ClassExpression::ObjectHasValue { ope: a_ope, i: a_i },
            ClassExpression::ObjectHasValue { ope: b_ope, i: b_i },
        ) => {
            object_property_expression_same(a_ope, b_ope) && named_individual_same(a_i, b_i)
        },
        (
            ClassExpression::ObjectMinCardinality { n: a_n, ope: a_ope, bce: a_bce },
            ClassExpression::ObjectMinCardinality { n: b_n, ope: b_ope, bce: b_bce },
        ) => {
            *a_n == *b_n
                && object_property_expression_same(a_ope, b_ope)
                && class_expression_same(a_bce, b_bce)
        },
        (
            ClassExpression::ObjectMaxCardinality { n: a_n, ope: a_ope, bce: a_bce },
            ClassExpression::ObjectMaxCardinality { n: b_n, ope: b_ope, bce: b_bce },
        ) => {
            *a_n == *b_n
                && object_property_expression_same(a_ope, b_ope)
                && class_expression_same(a_bce, b_bce)
        },
        (
            ClassExpression::ObjectExactCardinality { n: a_n, ope: a_ope, bce: a_bce },
            ClassExpression::ObjectExactCardinality { n: b_n, ope: b_ope, bce: b_bce },
        ) => {
            *a_n == *b_n
                && object_property_expression_same(a_ope, b_ope)
                && class_expression_same(a_bce, b_bce)
        },
        (
            ClassExpression::DataSomeValuesFrom { dp: a_dp, dr: a_dr },
            ClassExpression::DataSomeValuesFrom { dp: b_dp, dr: b_dr },
        ) => {
            data_property_same(a_dp, b_dp) && data_range_same(a_dr, b_dr)
        },
        (
            ClassExpression::DataAllValuesFrom { dp: a_dp, dr: a_dr },
            ClassExpression::DataAllValuesFrom { dp: b_dp, dr: b_dr },
        ) => {
            data_property_same(a_dp, b_dp) && data_range_same(a_dr, b_dr)
        },
        (
            ClassExpression::DataHasValue { dp: a_dp, l: a_l },
            ClassExpression::DataHasValue { dp: b_dp, l: b_l },
        ) => {
            data_property_same(a_dp, b_dp) && literal_same(a_l, b_l)
        },
        (
            ClassExpression::DataMinCardinality { n: a_n, dp: a_dp, dr: a_dr },
            ClassExpression::DataMinCardinality { n: b_n, dp: b_dp, dr: b_dr },
        ) => {
            *a_n == *b_n && data_property_same(a_dp, b_dp) && data_range_same(a_dr, b_dr)
        },
        (
            ClassExpression::DataMaxCardinality { n: a_n, dp: a_dp, dr: a_dr },
            ClassExpression::DataMaxCardinality { n: b_n, dp: b_dp, dr: b_dr },
        ) => {
            *a_n == *b_n && data_property_same(a_dp, b_dp) && data_range_same(a_dr, b_dr)
        },
        (
            ClassExpression::DataExactCardinality { n: a_n, dp: a_dp, dr: a_dr },
            ClassExpression::DataExactCardinality { n: b_n, dp: b_dp, dr: b_dr },
        ) => {
            *a_n == *b_n && data_property_same(a_dp, b_dp) && data_range_same(a_dr, b_dr)
        },
        _ => false,
    }
}

/// A copy of a value.
pub fn class_expression_copy(a: &ClassExpression) -> (r: ClassExpression)
    ensures
        r.deep_view() == a.deep_view(),
    decreases a,
{
    match a {
        ClassExpression::Class(a_0) => ClassExpression::Class(class_copy(a_0)),
        ClassExpression::ObjectIntersectionOf(a_0) => {
            let c_0 = class_expression_list_copy(a_0);
            let r = ClassExpression::ObjectIntersectionOf(c_0);
            proof {
                assert(a_0.deep_view() =~= a.deep_view()->ObjectIntersectionOf_0);
                assert(c_0.deep_view() =~= r.deep_view()->ObjectIntersectionOf_0);
            }
            r
        },
        ClassExpression::ObjectUnionOf(a_0) => {
            let c_0 = class_expression_list_copy(a_0);
            let r = ClassExpression::ObjectUnionOf(c_0);
            proof {
                assert(a_0.deep_view() =~= a.deep_view()->ObjectUnionOf_0);
                assert(c_0.deep_view() =~= r.deep_view()->ObjectUnionOf_0);
            }
            r
        },
        ClassExpression::ObjectComplementOf(a_0) => {
            ClassExpression::ObjectComplementOf(Box::new(class_expression_copy(a_0)))
        },
        ClassExpression::ObjectOneOf(a_0) => ClassExpression::ObjectOneOf(vec_copy(a_0)),
        ClassExpression::ObjectSomeValuesFrom { ope: a_ope, bce: a_bce } => {
            ClassExpression::ObjectSomeValuesFrom {
                ope: object_property_expression_copy(a_ope),
                bce: Box::new(class_expression_copy(a_bce)),
            }
        },
        ClassExpression::ObjectAllValuesFrom { ope: a_ope, bce: a_bce } => {
            ClassExpression::ObjectAllValuesFrom {
                ope: object_property_expression_copy(a_ope),
                bce: Box::new(class_expression_copy(a_bce)),
            }
        },
        ClassExpression::ObjectHasValue { ope: a_ope, i: a_i } => {
            ClassExpression::ObjectHasValue {
                ope: object_property_expression_copy(a_ope),
                i: named_individual_copy(a_i),
            }
        },
        ClassExpression::ObjectMinCardinality { n: a_n, ope: a_ope, bce: a_bce } => {
            ClassExpression::ObjectMinCardinality {
                n: *a_n,
                ope: object_property_expression_copy(a_ope),
                bce: Box::new(class_expression_copy(a_bce)),
            }
        },
        ClassExpression::ObjectMaxCardinality { n: a_n, ope: a_ope, bce: a_bce } => {
            ClassExpression::ObjectMaxCardinality {
                n: *a_n,
                ope: object_property_expression_copy(a_ope),
                bce: Box::new(class_expression_copy(a_bce)),
            }
        },
        ClassExpression::ObjectExactCardinality { n: a_n, ope: a_ope, bce: a_bce } => {
            ClassExpression::ObjectExactCardinality {
                n: *a_n,
                ope: object_property_expression_copy(a_ope),
                bce: Box::new(class_expression_copy(a_bce)),
            }
        },
        ClassExpression::DataSomeValuesFrom { dp: a_dp, dr: a_dr } => {
            ClassExpression::DataSomeValuesFrom {
                dp: data_property_copy(a_dp),
                dr: data_range_copy(a_dr),
            }
        },
        ClassExpression::DataAllValuesFrom { dp: a_dp, dr: a_dr } => {
            ClassExpression::DataAllValuesFrom {
                dp: data_property_copy(a_dp),
                dr: data_range_copy(a_dr),
            }
        },
        ClassExpression::DataHasValue { dp: a_dp, l: a_l } => {
            ClassExpression::DataHasValue { dp: data_property_copy(a_dp), l: literal_copy(a_l) }
        },
        ClassExpression::DataMinCardinality { n: a_n, dp: a_dp, dr: a_dr } => {
            ClassExpression::DataMinCardinality {
                n: *a_n,
                dp: data_property_copy(a_dp),
                dr: data_range_copy(a_dr),
            }
        },
        ClassExpression::DataMaxCardinality { n: a_n, dp: a_dp, dr: a_dr } => {
            ClassExpression::DataMaxCardinality {
                n: *a_n,
                dp: data_property_copy(a_dp),
                dr: data_range_copy(a_dr),
            }
        },
        ClassExpression::DataExactCardinality { n: a_n, dp: a_dp, dr: a_dr } => {
            ClassExpression::DataExactCardinality {
                n: *a_n,
                dp: data_property_copy(a_dp),
                dr: data_range_copy(a_dr),
            }
        },
    }
}

impl Clone for ClassExpression {
    fn clone(&self) -> (r: Self)
        ensures
            r.deep_view() == self.deep_view(),
    {
        class_expression_copy(self)
    }
}

impl PartialEq for ClassExpression {
    fn eq(&self, other: &Self) -> (r: bool) {
        class_expression_same(self, other)
    }
}

impl PartialEqSpecImpl for ClassExpression {
    open spec fn obeys_eq_spec() -> bool {
        true
    }

    open spec fn eq_spec(&self, other: &Self) -> bool {
        self.deep_view() == other.deep_view()
    }
}

impl Eq for ClassExpression {
}

} // verus!

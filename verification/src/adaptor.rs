//! Resource identifiers that may or may not have been checked to be IRIs.

use crate::io::rdf::reader::ParseError;
use crate::text::{owned, same_text};
use oxiri::{IriParseError, IriRef};
use vstd::prelude::*;
use vstd::std_specs::cmp::PartialEqSpecImpl;

verus! {

/// Text that identifies a resource.
pub trait ResourceIdentifiable: Sized {
    /// The text.
    spec fn text(&self) -> Seq<char>;

    /// The text.
    fn as_text(&self) -> (r: &str)
        ensures
            r@ == self.text(),
    ;
}

impl ResourceIdentifiable for String {
    open spec fn text(&self) -> Seq<char> {
        self@
    }

    fn as_text(&self) -> (r: &str) {
        self.as_str()
    }
}

/// The error with which `oxiri` refuses a text.
#[verifier::external_type_specification]
#[verifier::external_body]
pub struct ExIriParseError(IriParseError);

/// Whether a text is an IRI reference.
pub uninterp spec fn is_iri_ref(s: Seq<char>) -> bool;

/// The authority of an IRI reference, if it has one.
pub uninterp spec fn iri_authority(s: Seq<char>) -> Option<Seq<char>>;

/// Checks a text with `oxiri::IriRef::parse`: it succeeds on the IRI references,
/// and on nothing else.
#[verifier::external_body]
fn check_iri_ref(s: &str) -> (r: Result<(), IriParseError>)
    ensures
        r is Ok <==> is_iri_ref(s@),
{
    IriRef::parse(s).map(|_| ())
}

/// The authority of an IRI reference, from `oxiri::IriRef::authority`.
#[verifier::external_body]
fn authority_of(s: &str) -> (r: Option<String>)
    requires
        is_iri_ref(s@),
    ensures
        r.deep_view() == iri_authority(s@),
{
    IriRef::parse(s).ok()?.authority().map(str::to_string)
}

/// A resource identifier that was checked to be an IRI reference.
#[derive(Debug)]
pub struct CheckedIri<T: ResourceIdentifiable> {
    inner: T,
}

impl<T: ResourceIdentifiable> CheckedIri<T> {
    #[verifier::type_invariant]
    spec fn checked(self) -> bool {
        is_iri_ref(self.inner.text())
    }

    /// The text of the identifier.
    pub closed spec fn text(&self) -> Seq<char> {
        self.inner.text()
    }

    /// The text of the identifier.
    pub fn as_str(&self) -> (r: &str)
        ensures
            r@ == self.text(),
            is_iri_ref(r@),
    {
        proof {
            use_type_invariant(self);
        }
        self.inner.as_text()
    }

    /// The identifier that was checked.
    pub fn into_inner(self) -> (r: T)
        ensures
            r.text() == self.text(),
    {
        self.inner
    }

    /// The authority of the IRI reference, if it has one.
    pub fn authority(&self) -> (r: Option<String>)
        ensures
            r.deep_view() == iri_authority(self.text()),
    {
        proof {
            use_type_invariant(self);
        }
        authority_of(self.inner.as_text())
    }
}

/// A resource identifier, checked or not.
#[derive(Debug)]
pub enum IRIMaybe<T: ResourceIdentifiable> {
    /// An identifier as it was given.
    Unchecked(T),
    /// An identifier that was checked to be an IRI reference.
    Validated(CheckedIri<T>),
}

impl<T: ResourceIdentifiable> IRIMaybe<T> {
    /// The text of the identifier.
    pub open spec fn text(&self) -> Seq<char> {
        match self {
            IRIMaybe::Unchecked(t) => t.text(),
            IRIMaybe::Validated(c) => c.text(),
        }
    }

    /// An identifier that is taken as it is.
    pub fn new_unchecked(t: T) -> (r: Self)
        ensures
            r == IRIMaybe::Unchecked(t),
    {
        IRIMaybe::Unchecked(t)
    }

    /// An identifier that is checked: an IRI reference gives a validated
    /// identifier with the same text, any other text an error that holds it.
    pub fn new_validated(t: T) -> (r: Result<Self, ParseError>)
        ensures
            match r {
                Ok(v) => is_iri_ref(t.text()) && v is Validated && v.text() == t.text(),
                Err(e) => !is_iri_ref(t.text()) && (e matches ParseError::InvalidIRI(s) && s@
                    == t.text()),
            },
    {
        match check_iri_ref(t.as_text()) {
            Ok(()) => Ok(IRIMaybe::Validated(CheckedIri { inner: t })),
            Err(_) => Err(ParseError::InvalidIRI(owned(t.as_text()))),
        }
    }

    /// The text of the identifier.
    pub fn get_inner(&self) -> (r: &str)
        ensures
            r@ == self.text(),
    {
        match self {
            IRIMaybe::Unchecked(t) => t.as_text(),
            IRIMaybe::Validated(iri) => iri.as_str(),
        }
    }

    /// The identifier that was given.
    pub fn into_inner(self) -> (r: T)
        ensures
            r.text() == self.text(),
    {
        match self {
            IRIMaybe::Unchecked(t) => t,
            IRIMaybe::Validated(t) => t.into_inner(),
        }
    }

    /// Checks an identifier that was not checked yet; a validated one is kept.
    pub fn to_validated(self) -> (r: Result<Self, ParseError>)
        ensures
            match r {
                Ok(v) => v is Validated && v.text() == self.text() && (self is Validated
                    || is_iri_ref(self.text())),
                Err(e) => self is Unchecked && !is_iri_ref(self.text()) && (e matches
                ParseError::InvalidIRI(s) && s@ == self.text()),
            },
    {
        match self {
            IRIMaybe::Unchecked(t) => Self::new_validated(t),
            IRIMaybe::Validated(c) => Ok(IRIMaybe::Validated(c)),
        }
    }

    /// The checked identifier, if this one was validated.
    pub fn get_validated(&self) -> (r: Option<&CheckedIri<T>>)
        ensures
            match r {
                Some(c) => *self == IRIMaybe::Validated(*c),
                None => self is Unchecked,
            },
    {
        match self {
            IRIMaybe::Unchecked(_) => None,
            IRIMaybe::Validated(iri) => Some(iri),
        }
    }

    /// Whether the identifier was validated.
    pub fn is_validated(&self) -> (r: bool)
        ensures
            r == (self is Validated),
    {
        self.get_validated().is_some()
    }

    /// Whether two identifiers have the same text, validated or not.
    pub fn same(&self, other: &Self) -> (r: bool)
        ensures
            r == (self.text() == other.text()),
    {
        same_text(self.get_inner(), other.get_inner())
    }
}

impl<T: ResourceIdentifiable> PartialEq for IRIMaybe<T> {
    fn eq(&self, other: &Self) -> (r: bool) {
        self.same(other)
    }
}

impl<T: ResourceIdentifiable> PartialEqSpecImpl for IRIMaybe<T> {
    open spec fn obeys_eq_spec() -> bool {
        true
    }

    open spec fn eq_spec(&self, other: &Self) -> bool {
        self.text() == other.text()
    }
}

impl<T: ResourceIdentifiable> Eq for IRIMaybe<T> {
}

impl From<String> for IRIMaybe<String> {
    fn from(s: String) -> (r: Self) {
        IRIMaybe::new_unchecked(s)
    }
}

impl vstd::std_specs::convert::FromSpecImpl<String> for IRIMaybe<String> {
    open spec fn obeys_from_spec() -> bool {
        true
    }

    open spec fn from_spec(s: String) -> Self {
        IRIMaybe::Unchecked(s)
    }
}

impl Default for IRIMaybe<String> {
    fn default() -> (r: Self)
        ensures
            r is Unchecked,
            r.text() == Seq::<char>::empty(),
    {
        IRIMaybe::Unchecked(String::new())
    }
}

} // verus!

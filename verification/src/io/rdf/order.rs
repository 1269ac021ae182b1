//! The total order of terms and triples.
//!
//! Terms are ordered by kind first (OWL, RDF, RDF Schema, IRI, blank node,
//! literal, variable) and by value within a kind. Triples are ordered by
//! subject, then predicate, then object.

use crate::io::rdf::term::{LiteralKind, LiteralKindView, Term, TermView, Triple, TripleView};
use crate::text::{
    lemma_text_order_equal, lemma_text_order_flip, lemma_text_order_transitive, order_text,
    text_order, Sign,
};
use crate::vocab::{OWL, RDF, RDFS};
use vstd::prelude::*;
use vstd::relations::total_ordering;

verus! {

/// Comparison of two numbers.
pub open spec fn nat_order(a: nat, b: nat) -> Sign {
    if a < b {
        Sign::Less
    } else if a > b {
        Sign::Greater
    } else {
        Sign::Equal
    }
}

/// The first outcome unless it is `Equal`, else the second.
pub open spec fn refine(a: Sign, b: Sign) -> Sign {
    if a == Sign::Equal {
        b
    } else {
        a
    }
}

/// Comparison of two literal kinds: a language tag comes before a datatype.
pub open spec fn kind_order(a: LiteralKindView, b: LiteralKindView) -> Sign {
    match (a, b) {
        (LiteralKindView::Lang(x), LiteralKindView::Lang(y)) => text_order(x, y),
        (LiteralKindView::Datatype(x), LiteralKindView::Datatype(y)) => text_order(x, y),
        (LiteralKindView::Lang(_), LiteralKindView::Datatype(_)) => Sign::Less,
        (LiteralKindView::Datatype(_), LiteralKindView::Lang(_)) => Sign::Greater,
    }
}

/// The rank of a term's kind.
pub open spec fn kind_rank(t: TermView) -> nat {
    match t {
        TermView::OWL(_) => 1,
        TermView::RDF(_) => 2,
        TermView::RDFS(_) => 3,
        TermView::Iri(_) => 4,
        TermView::BNode(_) => 5,
        TermView::Literal(_, _) => 6,
        TermView::Variable(_) => 7,
    }
}

/// Comparison of two terms.
#[verifier::opaque]
pub open spec fn term_order(a: TermView, b: TermView) -> Sign {
    match (a, b) {
        (TermView::OWL(x), TermView::OWL(y)) => nat_order(x.rank(), y.rank()),
        (TermView::RDF(x), TermView::RDF(y)) => nat_order(x.rank(), y.rank()),
        (TermView::RDFS(x), TermView::RDFS(y)) => nat_order(x.rank(), y.rank()),
        (TermView::Iri(x), TermView::Iri(y)) => text_order(x, y),
        (TermView::BNode(x), TermView::BNode(y)) => text_order(x, y),
        (TermView::Literal(x, k), TermView::Literal(y, l)) => refine(
            text_order(x, y),
            kind_order(k, l),
        ),
        (TermView::Variable(x), TermView::Variable(y)) => text_order(x, y),
        _ => nat_order(kind_rank(a), kind_rank(b)),
    }
}

/// Comparison of two triples.
pub open spec fn triple_order(a: TripleView, b: TripleView) -> Sign {
    refine(
        term_order(a.subject, b.subject),
        refine(term_order(a.predicate, b.predicate), term_order(a.object, b.object)),
    )
}

/// The relation "not after" on triples.
pub open spec fn triple_le() -> spec_fn(TripleView, TripleView) -> bool {
    |a: TripleView, b: TripleView| triple_order(a, b) != Sign::Greater
}

/// Tokens of equal rank are the same token.
pub proof fn lemma_rank_injective()
    ensures
        forall|a: OWL, b: OWL| a.rank() == b.rank() ==> a == b,
        forall|a: RDF, b: RDF| a.rank() == b.rank() ==> a == b,
        forall|a: RDFS, b: RDFS| a.rank() == b.rank() ==> a == b,
{
}

/// Two literal kinds compare equal exactly when they are the same; swapping the
/// arguments swaps `Less` and `Greater`.
pub proof fn lemma_kind_order(a: LiteralKindView, b: LiteralKindView)
    ensures
        kind_order(a, b) == Sign::Equal <==> a == b,
        kind_order(a, b) == Sign::Less <==> kind_order(b, a) == Sign::Greater,
{
    match (a, b) {
        (LiteralKindView::Lang(x), LiteralKindView::Lang(y)) => {
            lemma_text_order_equal(x, y);
            lemma_text_order_flip(x, y);
        },
        (LiteralKindView::Datatype(x), LiteralKindView::Datatype(y)) => {
            lemma_text_order_equal(x, y);
            lemma_text_order_flip(x, y);
        },
        _ => {},
    }
}

/// `Less` on literal kinds is transitive.
pub proof fn lemma_kind_order_transitive(
    a: LiteralKindView,
    b: LiteralKindView,
    c: LiteralKindView,
)
    requires
        kind_order(a, b) == Sign::Less,
        kind_order(b, c) == Sign::Less,
    ensures
        kind_order(a, c) == Sign::Less,
{
    match (a, b, c) {
        (LiteralKindView::Lang(x), LiteralKindView::Lang(y), LiteralKindView::Lang(z)) => {
            lemma_text_order_transitive(x, y, z);
        },
        (
            LiteralKindView::Datatype(x),
            LiteralKindView::Datatype(y),
            LiteralKindView::Datatype(z),
        ) => {
            lemma_text_order_transitive(x, y, z);
        },
        _ => {},
    }
}

/// Two terms compare equal exactly when they are the same; swapping the
/// arguments swaps `Less` and `Greater`.
pub proof fn lemma_term_order(a: TermView, b: TermView)
    ensures
        term_order(a, b) == Sign::Equal <==> a == b,
        term_order(a, b) == Sign::Less <==> term_order(b, a) == Sign::Greater,
{
    reveal(term_order);
    lemma_rank_injective();
    match (a, b) {
        (TermView::Iri(x), TermView::Iri(y)) => {
            lemma_text_order_equal(x, y);
            lemma_text_order_flip(x, y);
        },
        (TermView::BNode(x), TermView::BNode(y)) => {
            lemma_text_order_equal(x, y);
            lemma_text_order_flip(x, y);
        },
        (TermView::Literal(x, k), TermView::Literal(y, l)) => {
            lemma_text_order_equal(x, y);
            lemma_text_order_flip(x, y);
            lemma_kind_order(k, l);
        },
        (TermView::Variable(x), TermView::Variable(y)) => {
            lemma_text_order_equal(x, y);
            lemma_text_order_flip(x, y);
        },
        _ => {},
    }
}

/// `Less` on terms is transitive.
pub proof fn lemma_term_order_transitive(a: TermView, b: TermView, c: TermView)
    requires
        term_order(a, b) == Sign::Less,
        term_order(b, c) == Sign::Less,
    ensures
        term_order(a, c) == Sign::Less,
{
    reveal(term_order);
    match (a, b, c) {
        (TermView::Iri(x), TermView::Iri(y), TermView::Iri(z)) => {
            lemma_text_order_transitive(x, y, z);
        },
        (TermView::BNode(x), TermView::BNode(y), TermView::BNode(z)) => {
            lemma_text_order_transitive(x, y, z);
        },
        (TermView::Literal(x, k), TermView::Literal(y, l), TermView::Literal(z, m)) => {
            lemma_text_order_equal(x, y);
            lemma_text_order_equal(y, z);
            lemma_text_order_equal(x, z);
            if text_order(x, y) == Sign::Less && text_order(y, z) == Sign::Less {
                lemma_text_order_transitive(x, y, z);
            } else if text_order(x, y) == Sign::Equal && text_order(y, z) == Sign::Equal {
                lemma_kind_order_transitive(k, l, m);
            }
        },
        (TermView::Variable(x), TermView::Variable(y), TermView::Variable(z)) => {
            lemma_text_order_transitive(x, y, z);
        },
        _ => {},
    }
}

/// Two triples compare equal exactly when they are the same; swapping the
/// arguments swaps `Less` and `Greater`.
pub proof fn lemma_triple_order(a: TripleView, b: TripleView)
    ensures
        triple_order(a, b) == Sign::Equal <==> a == b,
        triple_order(a, b) == Sign::Less <==> triple_order(b, a) == Sign::Greater,
{
    lemma_term_order(a.subject, b.subject);
    lemma_term_order(a.predicate, b.predicate);
    lemma_term_order(a.object, b.object);
    lemma_term_order(b.subject, a.subject);
    lemma_term_order(b.predicate, a.predicate);
    lemma_term_order(b.object, a.object);
}

/// `Less` on triples is transitive.
pub proof fn lemma_triple_order_transitive(a: TripleView, b: TripleView, c: TripleView)
    requires
        triple_order(a, b) == Sign::Less,
        triple_order(b, c) == Sign::Less,
    ensures
        triple_order(a, c) == Sign::Less,
{
    lemma_term_order(a.subject, b.subject);
    lemma_term_order(b.subject, c.subject);
    lemma_term_order(a.subject, c.subject);
    lemma_term_order(a.predicate, b.predicate);
    lemma_term_order(b.predicate, c.predicate);
    lemma_term_order(a.predicate, c.predicate);
    if term_order(a.subject, b.subject) == Sign::Less && term_order(b.subject, c.subject)
        == Sign::Less {
        lemma_term_order_transitive(a.subject, b.subject, c.subject);
    } else if term_order(a.subject, b.subject) == Sign::Equal && term_order(
        b.subject,
        c.subject,
    ) == Sign::Equal {
        if term_order(a.predicate, b.predicate) == Sign::Less && term_order(
            b.predicate,
            c.predicate,
        ) == Sign::Less {
            lemma_term_order_transitive(a.predicate, b.predicate, c.predicate);
        } else if term_order(a.predicate, b.predicate) == Sign::Equal && term_order(
            b.predicate,
            c.predicate,
        ) == Sign::Equal {
            lemma_term_order_transitive(a.object, b.object, c.object);
        }
    }
}

/// "Not after" is a total order on triples.
pub proof fn lemma_triple_le_total()
    ensures
        total_ordering(triple_le()),
{
    let le = triple_le();
    assert forall|x: TripleView| #[trigger] le(x, x) by {
        lemma_triple_order(x, x);
    }
    assert forall|x: TripleView, y: TripleView| #[trigger] le(x, y) && #[trigger] le(y, x) implies x
        == y by {
        lemma_triple_order(x, y);
    }
    assert forall|x: TripleView, y: TripleView, z: TripleView| #[trigger]
        le(x, y) && #[trigger] le(y, z) implies le(x, z) by {
        lemma_triple_order(x, y);
        lemma_triple_order(y, z);
        lemma_triple_order(x, z);
        if triple_order(x, y) == Sign::Less && triple_order(y, z) == Sign::Less {
            lemma_triple_order_transitive(x, y, z);
        }
    }
    assert forall|x: TripleView, y: TripleView| #[trigger] le(x, y) || #[trigger] le(y, x) by {
        lemma_triple_order(x, y);
    }
}

/// Compares two numbers.
pub fn order_rank(a: u8, b: u8) -> (r: Sign)
    ensures
        r == nat_order(a as nat, b as nat),
{
    if a < b {
        Sign::Less
    } else if a > b {
        Sign::Greater
    } else {
        Sign::Equal
    }
}

/// Compares two literal kinds.
pub fn order_kind(a: &LiteralKind, b: &LiteralKind) -> (r: Sign)
    ensures
        r == kind_order(a.deep_view(), b.deep_view()),
{
    match (a, b) {
        (LiteralKind::Lang(x), LiteralKind::Lang(y)) => order_text(x.as_str(), y.as_str()),
        (LiteralKind::Datatype(x), LiteralKind::Datatype(y)) => order_text(x.as_str(), y.as_str()),
        (LiteralKind::Lang(_), LiteralKind::Datatype(_)) => Sign::Less,
        (LiteralKind::Datatype(_), LiteralKind::Lang(_)) => Sign::Greater,
    }
}

/// The rank of a term's kind.
pub fn kind_ord(t: &Term) -> (r: u8)
    ensures
        r == kind_rank(t.deep_view()),
{
    match t {
        Term::OWL(_) => 1,
        Term::RDF(_) => 2,
        Term::RDFS(_) => 3,
        Term::Iri(_) => 4,
        Term::BNode(_) => 5,
        Term::Literal(_, _) => 6,
        Term::Variable(_) => 7,
    }
}

/// Compares two terms.
pub fn order_term(a: &Term, b: &Term) -> (r: Sign)
    ensures
        r == term_order(a.deep_view(), b.deep_view()),
{
    reveal(term_order);
    match (a, b) {
        (Term::OWL(x), Term::OWL(y)) => order_rank(x.ord(), y.ord()),
        (Term::RDF(x), Term::RDF(y)) => order_rank(x.ord(), y.ord()),
        (Term::RDFS(x), Term::RDFS(y)) => order_rank(x.ord(), y.ord()),
        (Term::Iri(x), Term::Iri(y)) => order_text(x.as_str(), y.as_str()),
        (Term::BNode(x), Term::BNode(y)) => order_text(x.as_str(), y.as_str()),
        (Term::Literal(x, k), Term::Literal(y, l)) => {
            match order_text(x.as_str(), y.as_str()) {
                Sign::Equal => order_kind(k, l),
                s => s,
            }
        },
        (Term::Variable(x), Term::Variable(y)) => order_text(x.as_str(), y.as_str()),
        _ => order_rank(kind_ord(a), kind_ord(b)),
    }
}

/// Compares two triples.
pub fn order_triple(a: &Triple, b: &Triple) -> (r: Sign)
    ensures
        r == triple_order(a.deep_view(), b.deep_view()),
{
    match order_term(&a.subject, &b.subject) {
        Sign::Equal => match order_term(&a.predicate, &b.predicate) {
            Sign::Equal => order_term(&a.object, &b.object),
            s => s,
        },
        s => s,
    }
}

} // verus!

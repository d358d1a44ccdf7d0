//! How the references of a listener were resolved.
use core::cmp::Ordering;
use vstd::prelude::*;
use vstd::std_specs::cmp::{PartialEqSpec, PartialEqSpecImpl, PartialOrdSpec, PartialOrdSpecImpl};
use crate::model::Model;
use crate::order::{Rank, int_rank};

verus! {

/// How the references of a listener were resolved, with the kinds of routes that it supports.
#[derive(Debug)]
pub enum ResolvedRefs {
    Resolved(Vec<String>),
    ResolvedWithNotAllowedRoutes(Vec<String>),
    InvalidAllowedRoutes,
    InvalidCertificates(Vec<String>),
    InvalidBackend(Vec<String>),
    RefNotPermitted(Vec<String>),
}

/// What a [`ResolvedRefs`] holds.
#[verifier::ext_equal]
pub enum ResolvedRefsView {
    Resolved(Seq<Seq<char>>),
    ResolvedWithNotAllowedRoutes(Seq<Seq<char>>),
    InvalidAllowedRoutes,
    InvalidCertificates(Seq<Seq<char>>),
    InvalidBackend(Seq<Seq<char>>),
    RefNotPermitted(Seq<Seq<char>>),
}

impl DeepView for ResolvedRefs {
    type V = ResolvedRefsView;

    open spec fn deep_view(&self) -> ResolvedRefsView {
        match self {
            ResolvedRefs::Resolved(x0) => ResolvedRefsView::Resolved(x0.deep_view()),
            ResolvedRefs::ResolvedWithNotAllowedRoutes(x0) => ResolvedRefsView::ResolvedWithNotAllowedRoutes(x0.deep_view()),
            ResolvedRefs::InvalidAllowedRoutes => ResolvedRefsView::InvalidAllowedRoutes,
            ResolvedRefs::InvalidCertificates(x0) => ResolvedRefsView::InvalidCertificates(x0.deep_view()),
            ResolvedRefs::InvalidBackend(x0) => ResolvedRefsView::InvalidBackend(x0.deep_view()),
            ResolvedRefs::RefNotPermitted(x0) => ResolvedRefsView::RefNotPermitted(x0.deep_view()),
        }
    }
}

impl Model for ResolvedRefs {
    fn dup(&self) -> (r: Self) {
        match self {
            ResolvedRefs::Resolved(x0) => ResolvedRefs::Resolved(x0.dup()),
            ResolvedRefs::ResolvedWithNotAllowedRoutes(x0) => ResolvedRefs::ResolvedWithNotAllowedRoutes(x0.dup()),
            ResolvedRefs::InvalidAllowedRoutes => ResolvedRefs::InvalidAllowedRoutes,
            ResolvedRefs::InvalidCertificates(x0) => ResolvedRefs::InvalidCertificates(x0.dup()),
            ResolvedRefs::InvalidBackend(x0) => ResolvedRefs::InvalidBackend(x0.dup()),
            ResolvedRefs::RefNotPermitted(x0) => ResolvedRefs::RefNotPermitted(x0.dup()),
        }
    }

    fn same(&self, other: &Self) -> (r: bool) {
        match (self, other) {
            (ResolvedRefs::Resolved(x0), ResolvedRefs::Resolved(x0_)) => x0.same(x0_),
            (ResolvedRefs::ResolvedWithNotAllowedRoutes(x0), ResolvedRefs::ResolvedWithNotAllowedRoutes(x0_)) => x0.same(x0_),
            (ResolvedRefs::InvalidAllowedRoutes, ResolvedRefs::InvalidAllowedRoutes) => true,
            (ResolvedRefs::InvalidCertificates(x0), ResolvedRefs::InvalidCertificates(x0_)) => x0.same(x0_),
            (ResolvedRefs::InvalidBackend(x0), ResolvedRefs::InvalidBackend(x0_)) => x0.same(x0_),
            (ResolvedRefs::RefNotPermitted(x0), ResolvedRefs::RefNotPermitted(x0_)) => x0.same(x0_),
            _ => false,
        }
    }
}

impl ResolvedRefs {
    /// The place of the outcome among the outcomes, whatever it holds.
    pub open spec fn place(&self) -> u8 {
        match self {
            ResolvedRefs::Resolved(_) => 0,
            ResolvedRefs::ResolvedWithNotAllowedRoutes(_) => 1,
            ResolvedRefs::InvalidAllowedRoutes => 2,
            ResolvedRefs::InvalidCertificates(_) => 3,
            ResolvedRefs::InvalidBackend(_) => 4,
            ResolvedRefs::RefNotPermitted(_) => 5,
        }
    }

    /// The place of the outcome among the outcomes, whatever it holds.
    pub fn discriminant(&self) -> (r: u8)
        ensures
            r == self.place(),
    {
        match self {
            ResolvedRefs::Resolved(_) => 0,
            ResolvedRefs::ResolvedWithNotAllowedRoutes(_) => 1,
            ResolvedRefs::InvalidAllowedRoutes => 2,
            ResolvedRefs::InvalidCertificates(_) => 3,
            ResolvedRefs::InvalidBackend(_) => 4,
            ResolvedRefs::RefNotPermitted(_) => 5,
        }
    }
}

/// How two numbers of eight bits stand to each other.
pub open spec fn places_rank(a: u8, b: u8) -> Rank {
    int_rank(a as int, b as int)
}

/// Computes `places_rank`.
pub fn rank_places(a: u8, b: u8) -> (r: Rank)
    ensures
        r == places_rank(a, b),
{
    if a < b {
        Rank::Less
    } else if a == b {
        Rank::Equal
    } else {
        Rank::Greater
    }
}

impl PartialEq for ResolvedRefs {
    fn eq(&self, other: &Self) -> (r: bool) {
        self.discriminant() == other.discriminant()
    }
}

impl PartialEqSpecImpl for ResolvedRefs {
    open spec fn obeys_eq_spec() -> bool {
        true
    }

    open spec fn eq_spec(&self, other: &Self) -> bool {
        self.place() == other.place()
    }
}

impl Eq for ResolvedRefs {

}

impl PartialOrd for ResolvedRefs {
    fn partial_cmp(&self, other: &Self) -> (r: Option<Ordering>) {
        Some(rank_places(self.discriminant(), other.discriminant()).to_named())
    }
}

impl PartialOrdSpecImpl for ResolvedRefs {
    open spec fn obeys_partial_cmp_spec() -> bool {
        true
    }

    open spec fn partial_cmp_spec(&self, other: &Self) -> Option<Ordering> {
        Some(places_rank(self.place(), other.place()).named())
    }
}

/// Outcomes stand in the order of how bad they are: resolved references first, references that are not
/// permitted last.
pub proof fn law_outcomes_in_order(a: ResolvedRefs, b: ResolvedRefs)
    ensures
        a is Resolved && !(b is Resolved) ==> a.place() < b.place(),
        a is ResolvedWithNotAllowedRoutes && b is InvalidAllowedRoutes ==> a.place() < b.place(),
        a is InvalidAllowedRoutes && b is InvalidCertificates ==> a.place() < b.place(),
        a is InvalidCertificates && b is InvalidBackend ==> a.place() < b.place(),
        a is InvalidBackend && b is RefNotPermitted ==> a.place() < b.place(),
        a.place() < b.place() <==> places_rank(a.place(), b.place()) == Rank::Less,
        a.place() == b.place() <==> places_rank(a.place(), b.place()) == Rank::Equal,
{
}

/// Two outcomes are the same where they are of one kind, whatever they hold, and stand to each other as
/// their places do.
pub proof fn law_outcomes_told_apart(a: ResolvedRefs, b: ResolvedRefs)
    ensures
        PartialEqSpec::eq_spec(&a, &b) <==> {
            ||| a is Resolved && b is Resolved
            ||| a is ResolvedWithNotAllowedRoutes && b is ResolvedWithNotAllowedRoutes
            ||| a is InvalidAllowedRoutes && b is InvalidAllowedRoutes
            ||| a is InvalidCertificates && b is InvalidCertificates
            ||| a is InvalidBackend && b is InvalidBackend
            ||| a is RefNotPermitted && b is RefNotPermitted
        },
        places_rank(a.place(), b.place()) == Rank::Less
            ==> PartialOrdSpec::partial_cmp_spec(&a, &b) == Some(Ordering::Less),
        places_rank(a.place(), b.place()) == Rank::Equal
            ==> PartialOrdSpec::partial_cmp_spec(&a, &b) == Some(Ordering::Equal),
        places_rank(a.place(), b.place()) == Rank::Greater
            ==> PartialOrdSpec::partial_cmp_spec(&a, &b) == Some(Ordering::Greater),
{
}

} // verus!

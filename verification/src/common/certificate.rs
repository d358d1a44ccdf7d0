//! Certificates that listeners refer to.
use vstd::prelude::*;
use crate::common::resource_key::{ResourceKey, ResourceKeyView};
use crate::model::Model;

verus! {

/// A certificate, with what is known of the secret that holds it.
#[derive(Debug, PartialEq, Eq, PartialOrd, Ord)]
pub enum Certificate {
    ResolvedSameSpace(ResourceKey),
    ResolvedCrossSpace(ResourceKey),
    NotResolved(ResourceKey),
    Invalid(ResourceKey),
}

/// What a [`Certificate`] holds.
#[verifier::ext_equal]
pub enum CertificateView {
    ResolvedSameSpace(ResourceKeyView),
    ResolvedCrossSpace(ResourceKeyView),
    NotResolved(ResourceKeyView),
    Invalid(ResourceKeyView),
}

impl DeepView for Certificate {
    type V = CertificateView;

    open spec fn deep_view(&self) -> CertificateView {
        match self {
            Certificate::ResolvedSameSpace(x0) => CertificateView::ResolvedSameSpace(x0.deep_view()),
            Certificate::ResolvedCrossSpace(x0) => CertificateView::ResolvedCrossSpace(x0.deep_view()),
            Certificate::NotResolved(x0) => CertificateView::NotResolved(x0.deep_view()),
            Certificate::Invalid(x0) => CertificateView::Invalid(x0.deep_view()),
        }
    }
}

impl Model for Certificate {
    fn dup(&self) -> (r: Self) {
        match self {
            Certificate::ResolvedSameSpace(x0) => Certificate::ResolvedSameSpace(x0.dup()),
            Certificate::ResolvedCrossSpace(x0) => Certificate::ResolvedCrossSpace(x0.dup()),
            Certificate::NotResolved(x0) => Certificate::NotResolved(x0.dup()),
            Certificate::Invalid(x0) => Certificate::Invalid(x0.dup()),
        }
    }

    fn same(&self, other: &Self) -> (r: bool) {
        match (self, other) {
            (Certificate::ResolvedSameSpace(x0), Certificate::ResolvedSameSpace(x0_)) => x0.same(x0_),
            (Certificate::ResolvedCrossSpace(x0), Certificate::ResolvedCrossSpace(x0_)) => x0.same(x0_),
            (Certificate::NotResolved(x0), Certificate::NotResolved(x0_)) => x0.same(x0_),
            (Certificate::Invalid(x0), Certificate::Invalid(x0_)) => x0.same(x0_),
            _ => false,
        }
    }
}

impl CertificateView {
    /// The key of the secret.
    pub open spec fn key(self) -> ResourceKeyView {
        match self {
            CertificateView::ResolvedSameSpace(key) => key,
            CertificateView::ResolvedCrossSpace(key) => key,
            CertificateView::NotResolved(key) => key,
            CertificateView::Invalid(key) => key,
        }
    }
}

impl Certificate {
    /// The certificate with its secret found in the namespace of the gateway.
    pub fn resolve(&self) -> (r: Self)
        ensures
            r.deep_view() == CertificateView::ResolvedSameSpace(self.deep_view().key()),
    {
        Certificate::ResolvedSameSpace(self.resouce_key().dup())
    }

    /// The certificate with its secret found in another namespace.
    pub fn resolve_cross_space(&self) -> (r: Self)
        ensures
            r.deep_view() == CertificateView::ResolvedCrossSpace(self.deep_view().key()),
    {
        Certificate::ResolvedCrossSpace(self.resouce_key().dup())
    }

    /// The certificate with its secret not found.
    pub fn not_resolved(&self) -> (r: Self)
        ensures
            r.deep_view() == CertificateView::NotResolved(self.deep_view().key()),
    {
        Certificate::NotResolved(self.resouce_key().dup())
    }

    /// The certificate with a secret that holds none.
    pub fn invalid(&self) -> (r: Self)
        ensures
            r.deep_view() == CertificateView::Invalid(self.deep_view().key()),
    {
        Certificate::Invalid(self.resouce_key().dup())
    }

    /// The key of the secret.
    pub fn resouce_key(&self) -> (r: &ResourceKey)
        ensures
            r.deep_view() == self.deep_view().key(),
    {
        match self {
            Certificate::ResolvedSameSpace(key) => key,
            Certificate::ResolvedCrossSpace(key) => key,
            Certificate::NotResolved(key) => key,
            Certificate::Invalid(key) => key,
        }
    }
}

/// A certificate has the key of its secret, whatever is known of the secret.
pub proof fn law_certificate_keeps_key(key: ResourceKeyView)
    ensures
        CertificateView::ResolvedSameSpace(key).key() == key,
        CertificateView::ResolvedCrossSpace(key).key() == key,
        CertificateView::NotResolved(key).key() == key,
        CertificateView::Invalid(key).key() == key,
{
}

} // verus!

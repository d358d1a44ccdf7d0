//! The types of the resources that Envoy is told of.
use vstd::prelude::*;
use vstd::std_specs::convert::TryFromSpecImpl;
use crate::model::Model;
use crate::text::{cat, text_is};

verus! {

/// The type of a resource.
#[derive(Clone, Copy, Debug, PartialEq, Eq, Structural)]
pub enum TypeUrl {
    Listener,
    Cluster,
    RouteConfiguration,
    ClusterLoadAssignment,
    Secret,
}

impl DeepView for TypeUrl {
    type V = TypeUrl;

    open spec fn deep_view(&self) -> TypeUrl {
        *self
    }
}

impl Model for TypeUrl {
    fn dup(&self) -> (r: Self) {
        *self
    }

    fn same(&self, other: &Self) -> (r: bool) {
        *self == *other
    }
}

/// Why a message of the discovery service cannot be handled.
#[derive(Debug, PartialEq, Eq)]
pub enum XdsError {
    UnknownResourceType(String),
}

/// What a [`XdsError`] holds.
#[verifier::ext_equal]
pub enum XdsErrorView {
    UnknownResourceType(Seq<char>),
}

impl DeepView for XdsError {
    type V = XdsErrorView;

    open spec fn deep_view(&self) -> XdsErrorView {
        match self {
            XdsError::UnknownResourceType(x0) => XdsErrorView::UnknownResourceType(x0.deep_view()),
        }
    }
}

impl Model for XdsError {
    fn dup(&self) -> (r: Self) {
        match self {
            XdsError::UnknownResourceType(x0) => XdsError::UnknownResourceType(x0.dup()),
        }
    }

    fn same(&self, other: &Self) -> (r: bool) {
        match (self, other) {
            (XdsError::UnknownResourceType(x0), XdsError::UnknownResourceType(x0_)) => x0.same(x0_),
        }
    }
}

/// The type that a URL names.
pub open spec fn type_named(url: Seq<char>) -> Option<TypeUrl> {
    if url == TypeUrl::Listener.url() {
        Some(TypeUrl::Listener)
    } else if url == TypeUrl::Cluster.url() {
        Some(TypeUrl::Cluster)
    } else if url == TypeUrl::RouteConfiguration.url() {
        Some(TypeUrl::RouteConfiguration)
    } else if url == TypeUrl::ClusterLoadAssignment.url() {
        Some(TypeUrl::ClusterLoadAssignment)
    } else if url == TypeUrl::Secret.url() {
        Some(TypeUrl::Secret)
    } else {
        None
    }
}

/// What a URL that names no type is answered with.
pub open spec fn unknown_type(url: Seq<char>) -> XdsErrorView {
    XdsErrorView::UnknownResourceType("did not recognise type_url "@ + url)
}

impl TypeUrl {
    /// The URL of the type.
    pub open spec fn url(self) -> Seq<char> {
        match self {
            TypeUrl::Listener => "type.googleapis.com/envoy.config.listener.v3.Listener"@,
            TypeUrl::Cluster => "type.googleapis.com/envoy.config.cluster.v3.Cluster"@,
            TypeUrl::RouteConfiguration =>
                "type.googleapis.com/envoy.config.route.v3.RouteConfiguration"@,
            TypeUrl::ClusterLoadAssignment =>
                "type.googleapis.com/envoy.config.endpoint.v3.ClusterLoadAssignment"@,
            TypeUrl::Secret =>
                "type.googleapis.com/envoy.extensions.transport_sockets.tls.v3.Secret"@,
        }
    }

    /// The URL of the type.
    pub fn to_text(&self) -> (r: &'static str)
        ensures
            r@ == self.url(),
    {
        match self {
            TypeUrl::Listener => "type.googleapis.com/envoy.config.listener.v3.Listener",
            TypeUrl::Cluster => "type.googleapis.com/envoy.config.cluster.v3.Cluster",
            TypeUrl::RouteConfiguration =>
                "type.googleapis.com/envoy.config.route.v3.RouteConfiguration",
            TypeUrl::ClusterLoadAssignment =>
                "type.googleapis.com/envoy.config.endpoint.v3.ClusterLoadAssignment",
            TypeUrl::Secret => "type.googleapis.com/envoy.extensions.transport_sockets.tls.v3.Secret",
        }
    }
}

impl<'a> TryFrom<&'a str> for TypeUrl {
    type Error = XdsError;

    fn try_from(type_url_string: &'a str) -> (r: Result<TypeUrl, XdsError>)
        ensures
            match type_named(type_url_string@) {
                Some(named) => r matches Ok(found) && found == named,
                None => r matches Err(error) && error.deep_view() == unknown_type(
                    type_url_string@,
                ),
            },
    {
        if text_is(type_url_string, TypeUrl::Listener.to_text()) {
            Ok(TypeUrl::Listener)
        } else if text_is(type_url_string, TypeUrl::Cluster.to_text()) {
            Ok(TypeUrl::Cluster)
        } else if text_is(type_url_string, TypeUrl::RouteConfiguration.to_text()) {
            Ok(TypeUrl::RouteConfiguration)
        } else if text_is(type_url_string, TypeUrl::ClusterLoadAssignment.to_text()) {
            Ok(TypeUrl::ClusterLoadAssignment)
        } else if text_is(type_url_string, TypeUrl::Secret.to_text()) {
            Ok(TypeUrl::Secret)
        } else {
            Err(XdsError::UnknownResourceType(cat("did not recognise type_url ", type_url_string)))
        }
    }
}

impl<'a> TryFromSpecImpl<&'a str> for TypeUrl {
    open spec fn obeys_try_from_spec() -> bool {
        false
    }

    open spec fn try_from_spec(type_url_string: &'a str) -> Result<TypeUrl, XdsError> {
        arbitrary()
    }
}

/// The URL of a type names that type.
pub proof fn law_type_url(kind: TypeUrl)
    ensures
        type_named(kind.url()) == Some(kind),
{
    reveal_strlit("type.googleapis.com/envoy.config.listener.v3.Listener");
    reveal_strlit("type.googleapis.com/envoy.config.cluster.v3.Cluster");
    reveal_strlit("type.googleapis.com/envoy.config.route.v3.RouteConfiguration");
    reveal_strlit("type.googleapis.com/envoy.config.endpoint.v3.ClusterLoadAssignment");
    reveal_strlit("type.googleapis.com/envoy.extensions.transport_sockets.tls.v3.Secret");
    let a = TypeUrl::Listener.url();
    let b = TypeUrl::Cluster.url();
    let c = TypeUrl::RouteConfiguration.url();
    let d = TypeUrl::ClusterLoadAssignment.url();
    let e = TypeUrl::Secret.url();
    assert(a.len() == 53 && b.len() == 51 && c.len() == 60 && d.len() == 66 && e.len() == 68);
}

/// Each type has its URL, and no other URL names a type.
pub proof fn law_urls(url: Seq<char>)
    ensures
        TypeUrl::Listener.url() == "type.googleapis.com/envoy.config.listener.v3.Listener"@,
        TypeUrl::Cluster.url() == "type.googleapis.com/envoy.config.cluster.v3.Cluster"@,
        TypeUrl::RouteConfiguration.url()
            == "type.googleapis.com/envoy.config.route.v3.RouteConfiguration"@,
        TypeUrl::ClusterLoadAssignment.url()
            == "type.googleapis.com/envoy.config.endpoint.v3.ClusterLoadAssignment"@,
        TypeUrl::Secret.url()
            == "type.googleapis.com/envoy.extensions.transport_sockets.tls.v3.Secret"@,
        type_named(url) is Some ==> type_named(url)->0.url() == url,
        unknown_type(url) == XdsErrorView::UnknownResourceType("did not recognise type_url "@ + url),
{
}

} // verus!

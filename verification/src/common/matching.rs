//! The order in which the rules of routes are tried.
use core::cmp::Ordering;
use vstd::prelude::*;
use vstd::utf8::encode_utf8;
use crate::common::kube::{
    GRPCMethodMatchView, GRPCRouteMatch, GRPCRouteMatchView, HTTPMethodMatch, HeaderMatch,
    PathMatchType, PathMatchView, RouteMatch, RouteMatchView,
};
use crate::order::{Rank, Ranked, int_rank, option_rank, rank_laws, text_rank};

verus! {

/// How two lists that may be missing stand to each other: the longer one first, a missing one last.
pub open spec fn longer_first<A>(this: Option<Seq<A>>, other: Option<Seq<A>>) -> Rank {
    match (this, other) {
        (None, None) => Rank::Equal,
        (None, Some(_)) => Rank::Greater,
        (Some(_), None) => Rank::Less,
        (Some(x), Some(y)) => int_rank(y.len() as int, x.len() as int),
    }
}

/// How two lists that may be missing stand to each other: the shorter one first, a missing one last.
pub open spec fn shorter_first<A>(this: Option<Seq<A>>, other: Option<Seq<A>>) -> Rank {
    match (this, other) {
        (None, None) => Rank::Equal,
        (None, Some(_)) => Rank::Greater,
        (Some(_), None) => Rank::Less,
        (Some(x), Some(y)) => int_rank(x.len() as int, y.len() as int),
    }
}

fn rank_lengths(a: usize, b: usize) -> (r: Rank)
    ensures
        r == int_rank(a as int, b as int),
{
    if a < b {
        Rank::Less
    } else if a == b {
        Rank::Equal
    } else {
        Rank::Greater
    }
}

fn rank_longer_first<T: DeepView>(this: &Option<Vec<T>>, other: &Option<Vec<T>>) -> (r: Rank)
    ensures
        r == longer_first(this.deep_view(), other.deep_view()),
{
    match (this, other) {
        (None, None) => Rank::Equal,
        (None, Some(_)) => Rank::Greater,
        (Some(_), None) => Rank::Less,
        (Some(x), Some(y)) => rank_lengths(y.len(), x.len()),
    }
}

fn rank_shorter_first<T: DeepView>(this: &Option<Vec<T>>, other: &Option<Vec<T>>) -> (r: Rank)
    ensures
        r == shorter_first(this.deep_view(), other.deep_view()),
{
    match (this, other) {
        (None, None) => Rank::Equal,
        (None, Some(_)) => Rank::Greater,
        (Some(_), None) => Rank::Less,
        (Some(x), Some(y)) => rank_lengths(x.len(), y.len()),
    }
}

/// Two lists that are to be held against each other.
pub struct Comparator<'a, T> {
    pub this: Option<&'a Vec<T>>,
    pub other: Option<&'a Vec<T>>,
}

/// How two lists that may be missing stand to each other: the longer one first, a missing one last.
pub open spec fn lists_rank<T>(this: Option<&Vec<T>>, other: Option<&Vec<T>>) -> Rank {
    match (this, other) {
        (None, None) => Rank::Equal,
        (None, Some(_)) => Rank::Greater,
        (Some(_), None) => Rank::Less,
        (Some(x), Some(y)) => int_rank(y@.len() as int, x@.len() as int),
    }
}

impl<'a, T> Comparator<'a, T> {
    /// The longer list comes first, a missing one last.
    pub fn compare(self) -> (r: Ordering)
        ensures
            r == lists_rank(self.this, self.other).named(),
    {
        let outcome = match (self.this, self.other) {
            (None, None) => Rank::Equal,
            (None, Some(_)) => Rank::Greater,
            (Some(_), None) => Rank::Less,
            (Some(x), Some(y)) => rank_lengths(y.len(), x.len()),
        };
        outcome.to_named()
    }
}

/// Two lists of headers that are to be held against each other.
pub struct HeaderComparator<'a> {
    pub this: Option<&'a Vec<HeaderMatch>>,
    pub other: Option<&'a Vec<HeaderMatch>>,
}

impl<'a> HeaderComparator<'a> {
    /// More headers come first, none last.
    pub fn compare_headers(self) -> (r: Ordering)
        ensures
            r == lists_rank(self.this, self.other).named(),
    {
        let comparator = Comparator { this: self.this, other: self.other };
        comparator.compare()
    }
}

/// Two lists of parameters of a query that are to be held against each other.
pub struct QueryComparator<'a> {
    pub this: Option<&'a Vec<HeaderMatch>>,
    pub other: Option<&'a Vec<HeaderMatch>>,
}

impl<'a> QueryComparator<'a> {
    /// More parameters come first, none last.
    pub fn compare_queries(self) -> (r: Ordering)
        ensures
            r == lists_rank(self.this, self.other).named(),
    {
        let comparator = Comparator { this: self.this, other: self.other };
        comparator.compare()
    }
}

/// The place of a method among the methods.
pub open spec fn method_place(method: HTTPMethodMatch) -> int {
    match method {
        HTTPMethodMatch::Get => 0,
        HTTPMethodMatch::Head => 1,
        HTTPMethodMatch::Post => 2,
        HTTPMethodMatch::Put => 3,
        HTTPMethodMatch::Delete => 4,
        HTTPMethodMatch::Connect => 5,
        HTTPMethodMatch::Options => 6,
        HTTPMethodMatch::Trace => 7,
        HTTPMethodMatch::Patch => 8,
    }
}

fn place_of_method(method: HTTPMethodMatch) -> (r: usize)
    ensures
        r == method_place(method),
{
    match method {
        HTTPMethodMatch::Get => 0,
        HTTPMethodMatch::Head => 1,
        HTTPMethodMatch::Post => 2,
        HTTPMethodMatch::Put => 3,
        HTTPMethodMatch::Delete => 4,
        HTTPMethodMatch::Connect => 5,
        HTTPMethodMatch::Options => 6,
        HTTPMethodMatch::Trace => 7,
        HTTPMethodMatch::Patch => 8,
    }
}

/// The place of a way of matching paths among the ways.
pub open spec fn path_type_place(match_type: PathMatchType) -> int {
    match match_type {
        PathMatchType::Exact => 0,
        PathMatchType::PathPrefix => 1,
        PathMatchType::RegularExpression => 2,
    }
}

fn place_of_path_type(match_type: PathMatchType) -> (r: usize)
    ensures
        r == path_type_place(match_type),
{
    match match_type {
        PathMatchType::Exact => 0,
        PathMatchType::PathPrefix => 1,
        PathMatchType::RegularExpression => 2,
    }
}

/// The number of bytes that a text takes.
pub open spec fn byte_count(text: Seq<char>) -> int {
    encode_utf8(text).len() as int
}

fn count_bytes(text: &str) -> (r: usize)
    ensures
        r == byte_count(text@),
{
    text.as_bytes().len()
}

/// How two matches stand to each other by their headers: more headers first, none last.
pub open spec fn header_rank(this: RouteMatchView, other: RouteMatchView) -> Rank {
    longer_first(this.headers, other.headers)
}

/// How two matches stand to each other by their queries: fewer parameters first, none last.
pub open spec fn query_rank(this: RouteMatchView, other: RouteMatchView) -> Rank {
    shorter_first(this.query_params, other.query_params)
}

/// How two matches stand to each other by their methods: by their places, none last.
pub open spec fn method_rank(this: RouteMatchView, other: RouteMatchView) -> Rank {
    match (this.method, other.method) {
        (None, None) => Rank::Equal,
        (None, Some(_)) => Rank::Greater,
        (Some(_), None) => Rank::Less,
        (Some(x), Some(y)) => int_rank(method_place(x), method_place(y)),
    }
}

/// How the values of two paths that are matched in the same way stand to each other: the one of more
/// bytes first, none last.
pub open spec fn path_value_rank(this: Option<Seq<char>>, other: Option<Seq<char>>) -> Rank {
    match (this, other) {
        (None, None) => Rank::Equal,
        (None, Some(_)) => Rank::Greater,
        (Some(_), None) => Rank::Less,
        (Some(x), Some(y)) => int_rank(byte_count(y), byte_count(x)),
    }
}

/// How two paths stand to each other: those matched in no stated way first, by their values; else by
/// the way of matching, then by their values.
pub open spec fn paths_rank(this: PathMatchView, other: PathMatchView) -> Rank {
    match (this.match_type, other.match_type) {
        (None, None) => option_rank::<String>(this.value, other.value),
        (None, Some(_)) => Rank::Less,
        (Some(_), None) => Rank::Greater,
        (Some(x), Some(y)) => int_rank(path_type_place(x), path_type_place(y)).or(
            path_value_rank(this.value, other.value),
        ),
    }
}

/// How two matches stand to each other by their paths: none last.
pub open spec fn path_rank(this: RouteMatchView, other: RouteMatchView) -> Rank {
    match (this.path, other.path) {
        (None, None) => Rank::Equal,
        (None, Some(_)) => Rank::Greater,
        (Some(_), None) => Rank::Less,
        (Some(x), Some(y)) => paths_rank(x, y),
    }
}

/// How two matches stand to each other: by query, then headers, then path, then method.
pub open spec fn match_rank(this: RouteMatchView, other: RouteMatchView) -> Rank {
    query_rank(this, other).or(header_rank(this, other)).or(path_rank(this, other)).or(
        method_rank(this, other),
    )
}

fn rank_methods(this: &RouteMatch, other: &RouteMatch) -> (r: Rank)
    ensures
        r == method_rank(this.deep_view(), other.deep_view()),
{
    match (&this.method, &other.method) {
        (None, None) => Rank::Equal,
        (None, Some(_)) => Rank::Greater,
        (Some(_), None) => Rank::Less,
        (Some(x), Some(y)) => rank_lengths(place_of_method(*x), place_of_method(*y)),
    }
}

fn rank_path_values(this: &Option<String>, other: &Option<String>) -> (r: Rank)
    ensures
        r == path_value_rank(this.deep_view(), other.deep_view()),
{
    match (this, other) {
        (None, None) => Rank::Equal,
        (None, Some(_)) => Rank::Greater,
        (Some(_), None) => Rank::Less,
        (Some(x), Some(y)) => rank_lengths(count_bytes(y.as_str()), count_bytes(x.as_str())),
    }
}

fn rank_paths(this: &RouteMatch, other: &RouteMatch) -> (r: Rank)
    ensures
        r == path_rank(this.deep_view(), other.deep_view()),
{
    match (&this.path, &other.path) {
        (None, None) => Rank::Equal,
        (None, Some(_)) => Rank::Greater,
        (Some(_), None) => Rank::Less,
        (Some(x), Some(y)) => match (&x.match_type, &y.match_type) {
            (None, None) => x.value.against(&y.value),
            (None, Some(_)) => Rank::Less,
            (Some(_), None) => Rank::Greater,
            (Some(t), Some(u)) => {
                match rank_lengths(place_of_path_type(*t), place_of_path_type(*u)) {
                    Rank::Equal => rank_path_values(&x.value, &y.value),
                    outcome => outcome,
                }
            },
        },
    }
}

impl Ranked for RouteMatch {
    open spec fn rank(a: RouteMatchView, b: RouteMatchView) -> Rank {
        match_rank(a, b)
    }

    proof fn rank_reflexive(a: RouteMatchView) {
        if a.path is Some {
            <Option<String> as Ranked>::rank_reflexive(a.path->0.value);
        }
        assert(Self::rank(a, a) == match_rank(a, a));
    }

    proof fn rank_flips(a: RouteMatchView, b: RouteMatchView) {
        if let (Some(x), Some(y)) = (a.path, b.path) {
            <Option<String> as Ranked>::rank_flips(x.value, y.value);
        }
    }

    proof fn rank_chains(a: RouteMatchView, b: RouteMatchView, c: RouteMatchView) {
        if let (Some(x), Some(y), Some(z)) = (a.path, b.path, c.path) {
            rank_laws::<Option<String>>(x.value, y.value, z.value);
        }
    }

    fn against(&self, other: &Self) -> (r: Rank) {
        match rank_shorter_first(&self.query_params, &other.query_params) {
            Rank::Equal => {},
            outcome => return outcome,
        }
        match rank_longer_first(&self.headers, &other.headers) {
            Rank::Equal => {},
            outcome => return outcome,
        }
        match rank_paths(self, other) {
            Rank::Equal => rank_methods(self, other),
            outcome => outcome,
        }
    }
}

/// How two gRPC methods stand to each other: by method, then by service.
pub open spec fn grpc_methods_rank(this: GRPCMethodMatchView, other: GRPCMethodMatchView) -> Rank {
    option_rank::<String>(this.method, other.method).or(
        option_rank::<String>(this.service, other.service),
    )
}

/// How two gRPC matches stand to each other by their methods: none last.
pub open spec fn grpc_method_rank(this: GRPCRouteMatchView, other: GRPCRouteMatchView) -> Rank {
    match (this.method, other.method) {
        (None, None) => Rank::Equal,
        (None, Some(_)) => Rank::Greater,
        (Some(_), None) => Rank::Less,
        (Some(x), Some(y)) => grpc_methods_rank(x, y),
    }
}

/// How two gRPC matches stand to each other: by headers, more of them first, then by method.
pub open spec fn grpc_match_rank(this: GRPCRouteMatchView, other: GRPCRouteMatchView) -> Rank {
    longer_first(this.headers, other.headers).or(grpc_method_rank(this, other))
}

fn rank_grpc_methods(this: &GRPCRouteMatch, other: &GRPCRouteMatch) -> (r: Rank)
    ensures
        r == grpc_method_rank(this.deep_view(), other.deep_view()),
{
    match (&this.method, &other.method) {
        (None, None) => Rank::Equal,
        (None, Some(_)) => Rank::Greater,
        (Some(_), None) => Rank::Less,
        (Some(x), Some(y)) => match x.method.against(&y.method) {
            Rank::Equal => x.service.against(&y.service),
            outcome => outcome,
        },
    }
}

impl Ranked for GRPCRouteMatch {
    open spec fn rank(a: GRPCRouteMatchView, b: GRPCRouteMatchView) -> Rank {
        grpc_match_rank(a, b)
    }

    proof fn rank_reflexive(a: GRPCRouteMatchView) {
        if a.method is Some {
            <Option<String> as Ranked>::rank_reflexive(a.method->0.method);
            <Option<String> as Ranked>::rank_reflexive(a.method->0.service);
        }
        assert(Self::rank(a, a) == grpc_match_rank(a, a));
    }

    proof fn rank_flips(a: GRPCRouteMatchView, b: GRPCRouteMatchView) {
        if let (Some(x), Some(y)) = (a.method, b.method) {
            <Option<String> as Ranked>::rank_flips(x.method, y.method);
            <Option<String> as Ranked>::rank_flips(x.service, y.service);
        }
    }

    proof fn rank_chains(a: GRPCRouteMatchView, b: GRPCRouteMatchView, c: GRPCRouteMatchView) {
        if let (Some(x), Some(y), Some(z)) = (a.method, b.method, c.method) {
            rank_laws::<Option<String>>(x.method, y.method, z.method);
            rank_laws::<Option<String>>(x.service, y.service, z.service);
        }
    }

    fn against(&self, other: &Self) -> (r: Rank) {
        match rank_longer_first(&self.headers, &other.headers) {
            Rank::Equal => rank_grpc_methods(self, other),
            outcome => outcome,
        }
    }
}

/// Of two gRPC matches that ask for headers, the one that asks for more of them comes first, whatever
/// their methods; one that asks for headers comes before one that does not.
pub proof fn law_more_headers_first(a: GRPCRouteMatchView, b: GRPCRouteMatchView)
    ensures
        a.headers is Some && b.headers is Some && a.headers->0.len() > b.headers->0.len()
            ==> <GRPCRouteMatch as Ranked>::rank(a, b) == Rank::Less,
        a.headers is Some && b.headers is None ==> <GRPCRouteMatch as Ranked>::rank(a, b)
            == Rank::Less,
{
}

/// Of two gRPC matches that ask for as many headers, one with a method comes before one without, and
/// two with methods stand in the order of the names of the methods and then of the services, where a
/// name that is left out comes first.
pub proof fn law_methods_in_order(a: GRPCRouteMatchView, b: GRPCRouteMatchView)
    requires
        a.headers is Some <==> b.headers is Some,
        a.headers is Some ==> a.headers->0.len() == b.headers->0.len(),
    ensures
        a.method is None && b.method is None ==> <GRPCRouteMatch as Ranked>::rank(a, b)
            == Rank::Equal,
        a.method is Some && b.method is None ==> <GRPCRouteMatch as Ranked>::rank(a, b)
            == Rank::Less,
        a.method is Some && b.method is Some ==> {
            let (x, y) = (a.method->0, b.method->0);
            &&& x.method is None && y.method is Some ==> <GRPCRouteMatch as Ranked>::rank(a, b)
                == Rank::Less
            &&& x.method is Some && y.method is Some && text_rank(x.method->0, y.method->0)
                == Rank::Less ==> <GRPCRouteMatch as Ranked>::rank(a, b) == Rank::Less
            &&& x.method == y.method && x.service is None && y.service is Some
                ==> <GRPCRouteMatch as Ranked>::rank(a, b) == Rank::Less
            &&& x.method == y.method && x.service is Some && y.service is Some && text_rank(
                x.service->0,
                y.service->0,
            ) == Rank::Less ==> <GRPCRouteMatch as Ranked>::rank(a, b) == Rank::Less
        },
{
    if a.method is Some && b.method is Some {
        <Option<String> as Ranked>::rank_reflexive(a.method->0.method);
    }
}

/// Of two HTTP matches that ask for parameters of the query, the one that asks for fewer comes first;
/// one that asks for some comes before one that does not.
pub proof fn law_fewer_parameters_first(a: RouteMatchView, b: RouteMatchView)
    ensures
        a.query_params is Some && b.query_params is Some && a.query_params->0.len()
            < b.query_params->0.len() ==> <RouteMatch as Ranked>::rank(a, b) == Rank::Less,
        a.query_params is Some && b.query_params is None ==> <RouteMatch as Ranked>::rank(a, b)
            == Rank::Less,
{
}

/// Of two HTTP matches that ask for as many parameters of the query, the one that asks for more headers
/// comes first; one that asks for headers comes before one that does not.
pub proof fn law_more_http_headers_first(a: RouteMatchView, b: RouteMatchView)
    requires
        a.query_params is Some <==> b.query_params is Some,
        a.query_params is Some ==> a.query_params->0.len() == b.query_params->0.len(),
    ensures
        a.headers is Some && b.headers is Some && a.headers->0.len() > b.headers->0.len()
            ==> <RouteMatch as Ranked>::rank(a, b) == Rank::Less,
        a.headers is Some && b.headers is None ==> <RouteMatch as Ranked>::rank(a, b) == Rank::Less,
{
}

/// Of two HTTP matches that ask for as many parameters and headers, one with a path comes before one
/// without. A whole path comes before a prefix and a prefix before a regular expression; of two of one
/// kind the one of more bytes comes first, and one without a value last.
pub proof fn law_longer_path_first(a: RouteMatchView, b: RouteMatchView)
    requires
        a.query_params is Some <==> b.query_params is Some,
        a.query_params is Some ==> a.query_params->0.len() == b.query_params->0.len(),
        a.headers is Some <==> b.headers is Some,
        a.headers is Some ==> a.headers->0.len() == b.headers->0.len(),
    ensures
        a.path is Some && b.path is None ==> <RouteMatch as Ranked>::rank(a, b) == Rank::Less,
        a.path is Some && b.path is Some ==> {
            let (x, y) = (a.path->0, b.path->0);
            &&& x.match_type is None && y.match_type is Some ==> <RouteMatch as Ranked>::rank(a, b)
                == Rank::Less
            &&& x.match_type == Some(PathMatchType::Exact) && (y.match_type == Some(
                PathMatchType::PathPrefix,
            ) || y.match_type == Some(PathMatchType::RegularExpression))
                ==> <RouteMatch as Ranked>::rank(a, b) == Rank::Less
            &&& x.match_type == Some(PathMatchType::PathPrefix) && y.match_type == Some(
                PathMatchType::RegularExpression,
            ) ==> <RouteMatch as Ranked>::rank(a, b) == Rank::Less
            &&& x.match_type is Some && x.match_type == y.match_type && x.value is Some
                && y.value is Some && encode_utf8(x.value->0).len() > encode_utf8(y.value->0).len()
                ==> <RouteMatch as Ranked>::rank(a, b) == Rank::Less
            &&& x.match_type is Some && x.match_type == y.match_type && x.value is Some
                && y.value is None ==> <RouteMatch as Ranked>::rank(a, b) == Rank::Less
            &&& x.match_type is None && y.match_type is None && x.value is Some && y.value is Some
                && text_rank(x.value->0, y.value->0) == Rank::Less
                ==> <RouteMatch as Ranked>::rank(a, b) == Rank::Less
        },
{
}

/// Of two HTTP matches that ask for as many parameters and headers and for the same path, one with a
/// method comes before one without; two with the same method, or without one, are equal.
pub proof fn law_method_first(a: RouteMatchView, b: RouteMatchView)
    requires
        a.query_params is Some <==> b.query_params is Some,
        a.query_params is Some ==> a.query_params->0.len() == b.query_params->0.len(),
        a.headers is Some <==> b.headers is Some,
        a.headers is Some ==> a.headers->0.len() == b.headers->0.len(),
        a.path == b.path,
    ensures
        a.method is Some && b.method is None ==> <RouteMatch as Ranked>::rank(a, b) == Rank::Less,
        a.method == b.method ==> <RouteMatch as Ranked>::rank(a, b) == Rank::Equal,
        a.method == Some(HTTPMethodMatch::Get) && b.method == Some(HTTPMethodMatch::Head)
            ==> <RouteMatch as Ranked>::rank(a, b) == Rank::Less,
        a.method == Some(HTTPMethodMatch::Head) && b.method == Some(HTTPMethodMatch::Post)
            ==> <RouteMatch as Ranked>::rank(a, b) == Rank::Less,
        a.method == Some(HTTPMethodMatch::Post) && b.method == Some(HTTPMethodMatch::Put)
            ==> <RouteMatch as Ranked>::rank(a, b) == Rank::Less,
        a.method == Some(HTTPMethodMatch::Put) && b.method == Some(HTTPMethodMatch::Delete)
            ==> <RouteMatch as Ranked>::rank(a, b) == Rank::Less,
        a.method == Some(HTTPMethodMatch::Delete) && b.method == Some(HTTPMethodMatch::Connect)
            ==> <RouteMatch as Ranked>::rank(a, b) == Rank::Less,
        a.method == Some(HTTPMethodMatch::Connect) && b.method == Some(HTTPMethodMatch::Options)
            ==> <RouteMatch as Ranked>::rank(a, b) == Rank::Less,
        a.method == Some(HTTPMethodMatch::Options) && b.method == Some(HTTPMethodMatch::Trace)
            ==> <RouteMatch as Ranked>::rank(a, b) == Rank::Less,
        a.method == Some(HTTPMethodMatch::Trace) && b.method == Some(HTTPMethodMatch::Patch)
            ==> <RouteMatch as Ranked>::rank(a, b) == Rank::Less,
{
    <RouteMatch as Ranked>::rank_reflexive(a);
    if a.path is Some {
        <Option<String> as Ranked>::rank_reflexive(a.path->0.value);
    }
}

/// Of two lists that are held against each other the longer one comes first, a missing one last.
pub proof fn law_lists_held_against_each_other<T>(this: Option<&Vec<T>>, other: Option<&Vec<T>>)
    ensures
        this is Some && other is Some && this->0@.len() > other->0@.len() ==> lists_rank(this, other)
            == Rank::Less,
        this is Some && other is Some && this->0@.len() == other->0@.len() ==> lists_rank(this, other)
            == Rank::Equal,
        this is Some && other is Some && this->0@.len() < other->0@.len() ==> lists_rank(this, other)
            == Rank::Greater,
        this is Some && other is None ==> lists_rank(this, other) == Rank::Less,
        this is None && other is Some ==> lists_rank(this, other) == Rank::Greater,
        this is None && other is None ==> lists_rank(this, other) == Rank::Equal,
{
}

} // verus!

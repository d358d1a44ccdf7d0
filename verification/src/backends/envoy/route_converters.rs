//! Effective rules as routes of Envoy.
use vstd::prelude::*;
use vstd::std_specs::convert::FromSpecImpl;
use crate::backends::envoy::inference::{
    INFERENCE_EXT_PROC_FILTER_NAME,
    envoy_route_name,
    extension_cluster,
    get_inference_extension_configurations,
    inference_cluster_name,
    law_first_pool,
    pool_config,
};
use crate::backends::envoy::resources::{
    Action,
    ActionView,
    BodySendMode,
    ClusterNotFoundResponseCode,
    ClusterWeight,
    ClusterWeightView,
    EnvoyRoute,
    EnvoyRouteView,
    ExtProcPerRoute,
    ExtProcPerRouteView,
    HeaderAppendAction,
    HeaderMatcher,
    HeaderMatcherView,
    HeaderSendMode,
    HeaderValueOption,
    HeaderValueOptionView,
    PathSpecifier,
    PathSpecifierView,
    RedirectAction,
    RedirectActionView,
    RedirectResponseCode,
    RouteAction,
    RouteActionView,
};
use crate::common::backend::{
    Backend,
    BackendType,
    BackendTypeConfig,
    BackendTypeView,
    BackendView,
    cluster_of,
};
use crate::common::kube::{
    GRPCMethodMatch,
    GRPCMethodMatchView,
    HeaderMatch,
    HeaderMatchView,
    HttpHeader,
    HttpHeaderView,
    MatchType,
    PathMatch,
    PathMatchType,
    PathMatchView,
    RequestRedirect,
    RequestRedirectView,
};
use crate::common::resource_key::{ResourceKeyView, or_text, text_or};
use crate::common::route::{
    GRPCEffectiveRoutingRule,
    GRPCEffectiveRoutingRuleView,
    HTTPEffectiveRoutingRule,
    HTTPEffectiveRoutingRuleView,
    list_or_none,
    or_no_items,
};
use crate::lists::{
    append_list,
    choose_list,
    chosen,
    chosen_contains,
    law_chosen_in_order,
    map_list,
    no_items,
};
use crate::model::Model;
use crate::text::{cat, cat3, text_is, trim_path, trimmed_path};

verus! {

/// A header that must have exactly the value that is asked for.
pub open spec fn exact_header() -> spec_fn(HeaderMatchView) -> HeaderMatcherView {
    |header: HeaderMatchView| HeaderMatcherView { name: header.name, exact: header.value }
}

fn match_header(header: &HeaderMatch) -> (r: HeaderMatcher)
    ensures
        r.deep_view() == exact_header()(header.deep_view()),
{
    HeaderMatcher { name: header.name.dup(), exact: header.value.dup() }
}

/// The headers that a request must have.
pub fn create_header_matchers(headers: &Option<Vec<HeaderMatch>>) -> (r: Vec<HeaderMatcher>)
    ensures
        r.deep_view() == list_or_none(headers.deep_view()).map_values(exact_header()),
{
    let list = or_no_items(headers);
    map_list(&list, match_header, Ghost(exact_header()))
}

/// A header that a request is given, with what is done where it has it already.
pub open spec fn header_option(action: HeaderAppendAction) -> spec_fn(
    HttpHeaderView,
) -> HeaderValueOptionView {
    |header: HttpHeaderView|
        HeaderValueOptionView { key: header.name, value: header.value, append_action: action }
}

/// The headers that a request is given: those to add, then those to set.
pub open spec fn header_options(
    to_add: Seq<HttpHeaderView>,
    to_set: Seq<HttpHeaderView>,
) -> Seq<HeaderValueOptionView> {
    to_add.map_values(header_option(HeaderAppendAction::AppendIfExistsOrAdd)) + to_set.map_values(
        header_option(HeaderAppendAction::OverwriteIfExistsOrAdd),
    )
}

fn option_of(header: &HttpHeader, action: HeaderAppendAction) -> (r: HeaderValueOption)
    ensures
        r.deep_view() == header_option(action)(header.deep_view()),
{
    HeaderValueOption { key: header.name.dup(), value: header.value.dup(), append_action: action }
}

/// The headers that a request is given: those to add, then those to set.
pub fn headers_to_add(to_add: &Vec<HttpHeader>, to_set: &Vec<HttpHeader>) -> (r: Vec<
    HeaderValueOption,
>)
    ensures
        r.deep_view() == header_options(to_add.deep_view(), to_set.deep_view()),
{
    let added = map_list(
        to_add,
        |header: &HttpHeader| -> (y: HeaderValueOption)
            ensures y.deep_view() == header_option(HeaderAppendAction::AppendIfExistsOrAdd)(header.deep_view())
        { option_of(header, HeaderAppendAction::AppendIfExistsOrAdd) },
        Ghost(header_option(HeaderAppendAction::AppendIfExistsOrAdd)),
    );
    let set = map_list(
        to_set,
        |header: &HttpHeader| -> (y: HeaderValueOption)
            ensures y.deep_view() == header_option(HeaderAppendAction::OverwriteIfExistsOrAdd)(header.deep_view())
        { option_of(header, HeaderAppendAction::OverwriteIfExistsOrAdd) },
        Ghost(header_option(HeaderAppendAction::OverwriteIfExistsOrAdd)),
    );
    append_list(added, set)
}

/// The share of a backend, where it has one.
pub open spec fn share_of(key: ResourceKeyView, weight: i32) -> Option<ClusterWeightView> {
    if weight > 0 {
        Some(ClusterWeightView { name: cluster_of(key), weight: weight as u32 })
    } else {
        None
    }
}

/// The share of a backend that is a service, or of a type that is not known.
pub open spec fn service_share() -> spec_fn(BackendView) -> Option<ClusterWeightView> {
    |backend: BackendView|
        match backend.typed() {
            BackendTypeView::Service(config) => share_of(config.resource_key, config.weight),
            BackendTypeView::Invalid(config) => share_of(config.resource_key, config.weight),
            BackendTypeView::InferencePool(_) => None,
        }
}

/// The share of a backend that is a service.
pub open spec fn plain_service_share() -> spec_fn(BackendView) -> Option<ClusterWeightView> {
    |backend: BackendView|
        match backend.typed() {
            BackendTypeView::Service(config) => share_of(config.resource_key, config.weight),
            _ => None,
        }
}

/// The share of a backend that is a pool.
pub open spec fn pool_share() -> spec_fn(BackendView) -> Option<ClusterWeightView> {
    |backend: BackendView|
        match backend.typed() {
            BackendTypeView::InferencePool(config) => share_of(config.resource_key, config.weight),
            _ => None,
        }
}

/// The share of a backend of any type.
pub open spec fn any_share() -> spec_fn(BackendView) -> Option<ClusterWeightView> {
    |backend: BackendView|
        match backend.typed() {
            BackendTypeView::Service(config) => share_of(config.resource_key, config.weight),
            BackendTypeView::Invalid(config) => share_of(config.resource_key, config.weight),
            BackendTypeView::InferencePool(config) => share_of(config.resource_key, config.weight),
        }
}

fn weigh<T: BackendTypeConfig>(config: &T) -> (r: Option<ClusterWeight>)
    ensures
        r.deep_view() == share_of(config.key(), config.share()),
{
    let weight: i32 = config.weight();
    if weight > 0 {
        Some(ClusterWeight { name: config.cluster_name(), weight: weight as u32 })
    } else {
        None
    }
}

fn weigh_service(backend: &Backend) -> (r: Option<ClusterWeight>)
    ensures
        r.deep_view() == service_share()(backend.deep_view()),
{
    match backend.backend_type() {
        BackendType::Service(config) => weigh(config),
        BackendType::Invalid(config) => weigh(config),
        BackendType::InferencePool(_) => None,
    }
}

fn weigh_plain_service(backend: &Backend) -> (r: Option<ClusterWeight>)
    ensures
        r.deep_view() == plain_service_share()(backend.deep_view()),
{
    match backend.backend_type() {
        BackendType::Service(config) => weigh(config),
        _ => None,
    }
}

fn weigh_pool(backend: &Backend) -> (r: Option<ClusterWeight>)
    ensures
        r.deep_view() == pool_share()(backend.deep_view()),
{
    match backend.backend_type() {
        BackendType::InferencePool(config) => weigh(config),
        _ => None,
    }
}

fn weigh_any(backend: &Backend) -> (r: Option<ClusterWeight>)
    ensures
        r.deep_view() == any_share()(backend.deep_view()),
{
    match backend.backend_type() {
        BackendType::Service(config) => weigh(config),
        BackendType::Invalid(config) => weigh(config),
        BackendType::InferencePool(config) => weigh(config),
    }
}

/// The shares of the services among some backends.
pub fn create_cluster_weights(backends: &Vec<Backend>) -> (r: Vec<ClusterWeight>)
    ensures
        r.deep_view() == chosen(backends.deep_view(), service_share()),
{
    choose_list(backends, weigh_service, Ghost(service_share()))
}

/// The path that a request must have to be matched: `/` where nothing is asked for.
pub open spec fn http_path(path: Option<PathMatchView>) -> PathSpecifierView {
    match path {
        Some(PathMatchView { match_type: Some(how), value }) => {
            let text = match value {
                Some(value) => trimmed_path(value),
                None => "/"@,
            };
            match how {
                PathMatchType::Exact => PathSpecifierView::Path(text),
                PathMatchType::PathPrefix => if value is Some && value->0 != "/"@ {
                    PathSpecifierView::PathSeparatedPrefix(text)
                } else {
                    PathSpecifierView::Prefix(text)
                },
                PathMatchType::RegularExpression => PathSpecifierView::SafeRegex(text),
            }
        },
        _ => PathSpecifierView::Path("/"@),
    }
}

fn path_of_http(path: &Option<PathMatch>) -> (r: PathSpecifier)
    ensures
        r.deep_view() == http_path(path.deep_view()),
{
    match path {
        Some(PathMatch { match_type: Some(how), value }) => {
            let text = match value {
                Some(value) => trim_path(value.as_str()),
                None => "/".to_owned(),
            };
            match how {
                PathMatchType::Exact => PathSpecifier::Path(text),
                PathMatchType::PathPrefix => {
                    let whole = match value {
                        Some(value) => text_is(value.as_str(), "/"),
                        None => true,
                    };
                    if whole {
                        PathSpecifier::Prefix(text)
                    } else {
                        PathSpecifier::PathSeparatedPrefix(text)
                    }
                },
                PathMatchType::RegularExpression => PathSpecifier::SafeRegex(text),
            }
        },
        _ => PathSpecifier::Path("/".to_owned()),
    }
}

/// The path of a gRPC method: the service, and the method where there is one.
pub open spec fn method_path(method: GRPCMethodMatchView) -> Seq<char> {
    let service = match method.service {
        Some(service) => trimmed_path(service),
        None => "/"@,
    };
    match method.method {
        Some(method) => "/"@ + service + "/"@ + method,
        None => "/"@ + service,
    }
}

/// The path that a gRPC request must have to be matched: any where nothing is asked for.
pub open spec fn grpc_path(method: Option<GRPCMethodMatchView>) -> PathSpecifierView {
    match method {
        Some(method) => match method.match_type {
            Some(MatchType::Exact) => PathSpecifierView::Path(method_path(method)),
            Some(MatchType::RegularExpression) => PathSpecifierView::SafeRegex(method_path(method)),
            None => PathSpecifierView::Prefix("/"@),
        },
        None => PathSpecifierView::Prefix("/"@),
    }
}

fn path_of_method(method: &GRPCMethodMatch) -> (r: String)
    ensures
        r@ == method_path(method.deep_view()),
{
    let service = match &method.service {
        Some(service) => trim_path(service.as_str()),
        None => "/".to_owned(),
    };
    match &method.method {
        Some(name) => {
            let start = cat3("/", service.as_str(), "/");
            cat(start.as_str(), name.as_str())
        },
        None => cat("/", service.as_str()),
    }
}

fn path_of_grpc(method: &Option<GRPCMethodMatch>) -> (r: PathSpecifier)
    ensures
        r.deep_view() == grpc_path(method.deep_view()),
{
    match method {
        Some(method) => match method.match_type {
            Some(MatchType::Exact) => PathSpecifier::Path(path_of_method(method)),
            Some(MatchType::RegularExpression) => PathSpecifier::SafeRegex(path_of_method(method)),
            None => PathSpecifier::Prefix("/".to_owned()),
        },
        None => PathSpecifier::Prefix("/".to_owned()),
    }
}

/// The status of a redirection: 301 where none that is known is asked for.
pub open spec fn redirect_code(status: Option<i32>) -> RedirectResponseCode {
    if status == Some(302i32) {
        RedirectResponseCode::Found
    } else if status == Some(303i32) {
        RedirectResponseCode::SeeOther
    } else if status == Some(307i32) {
        RedirectResponseCode::TemporaryRedirect
    } else if status == Some(308i32) {
        RedirectResponseCode::PermanentRedirect
    } else {
        RedirectResponseCode::MovedPermanently
    }
}

/// What is done with the requests of an HTTP route: they are redirected, or shared out.
pub open spec fn http_action(
    redirect: Option<RequestRedirectView>,
    clusters: Seq<ClusterWeightView>,
) -> ActionView {
    match redirect {
        Some(redirect) => ActionView::Redirect(
            RedirectActionView {
                host_redirect: text_or(redirect.hostname, Seq::empty()),
                response_code: redirect_code(redirect.status_code),
            },
        ),
        None => ActionView::Route(
            RouteActionView {
                cluster_not_found_response_code: ClusterNotFoundResponseCode::InternalServerError,
                clusters,
            },
        ),
    }
}

fn code_of(status: Option<i32>) -> (r: RedirectResponseCode)
    ensures
        r == redirect_code(status),
{
    match status {
        Some(302) => RedirectResponseCode::Found,
        Some(303) => RedirectResponseCode::SeeOther,
        Some(307) => RedirectResponseCode::TemporaryRedirect,
        Some(308) => RedirectResponseCode::PermanentRedirect,
        _ => RedirectResponseCode::MovedPermanently,
    }
}

fn act_on_http(redirect: &Option<RequestRedirect>, clusters: Vec<ClusterWeight>) -> (r: Action)
    ensures
        r.deep_view() == http_action(redirect.deep_view(), clusters.deep_view()),
{
    match redirect {
        Some(redirect) => {
            proof {
                reveal_strlit("");
            }
            assert(""@ =~= Seq::<char>::empty());
            Action::Redirect(
                RedirectAction {
                    host_redirect: or_text(&redirect.hostname, ""),
                    response_code: code_of(redirect.status_code),
                },
            )
        },
        None => Action::Route(
            RouteAction {
                cluster_not_found_response_code: ClusterNotFoundResponseCode::InternalServerError,
                clusters,
            },
        ),
    }
}

/// The filters of a route: the extension of the first pool among its backends processes the requests,
/// where the pool is configured.
pub open spec fn inference_filters(
    route_name: Seq<char>,
    backends: Seq<BackendView>,
) -> Seq<(Seq<char>, ExtProcPerRouteView)> {
    let pools = chosen(backends, pool_config());
    if pools.len() > 0 && pools[0].inference_config is Some {
        seq![
            (
                INFERENCE_EXT_PROC_FILTER_NAME@,
                ExtProcPerRouteView {
                    request_header_mode: HeaderSendMode::Send,
                    request_body_mode: BodySendMode::FullDuplexStreamed,
                    cluster_name: extension_cluster(route_name),
                    failure_mode_allow: false,
                },
            ),
        ]
    } else {
        Seq::empty()
    }
}

impl EnvoyRouteView {
    /// The route with other filters.
    pub open spec fn with_filters(
        self,
        filters: Seq<(Seq<char>, ExtProcPerRouteView)>,
    ) -> EnvoyRouteView {
        EnvoyRouteView { typed_per_filter_config: filters, ..self }
    }

    /// The route of an HTTP rule under a name, with the shares of its clusters.
    pub open spec fn of_http(
        rule: HTTPEffectiveRoutingRuleView,
        name: Seq<char>,
        clusters: Seq<ClusterWeightView>,
    ) -> EnvoyRouteView {
        EnvoyRouteView {
            name,
            path_specifier: http_path(rule.route_matcher.path),
            headers: list_or_none(rule.route_matcher.headers).map_values(exact_header()),
            request_headers_to_add: header_options(
                rule.request_headers.add,
                rule.request_headers.set,
            ),
            request_headers_to_remove: rule.request_headers.remove,
            action: http_action(rule.redirect_filter, clusters),
            typed_per_filter_config: Seq::empty(),
        }
    }

    /// The route of a gRPC rule, with the shares of its clusters.
    pub open spec fn of_grpc(
        rule: GRPCEffectiveRoutingRuleView,
        clusters: Seq<ClusterWeightView>,
    ) -> EnvoyRouteView {
        EnvoyRouteView {
            name: rule.name + "-grpc-route"@,
            path_specifier: grpc_path(rule.route_matcher.method),
            headers: list_or_none(rule.route_matcher.headers).map_values(exact_header()),
            request_headers_to_add: header_options(
                rule.request_headers.add,
                rule.request_headers.set,
            ),
            request_headers_to_remove: rule.request_headers.remove,
            action: ActionView::Route(
                RouteActionView {
                    cluster_not_found_response_code: ClusterNotFoundResponseCode::NotFound,
                    clusters,
                },
            ),
            typed_per_filter_config: Seq::empty(),
        }
    }
}

/// The route of an HTTP rule: services come before pools, and the extension of a pool processes the
/// requests.
pub open spec fn http_route() -> spec_fn(HTTPEffectiveRoutingRuleView) -> EnvoyRouteView {
    |rule: HTTPEffectiveRoutingRuleView|
        EnvoyRouteView::of_http(
            rule,
            rule.route_name(),
            chosen(rule.backends, service_share()) + chosen(rule.backends, pool_share()),
        ).with_filters(inference_filters(rule.route_name(), rule.backends))
}

/// The route of a gRPC rule: only services get requests.
pub open spec fn grpc_route() -> spec_fn(GRPCEffectiveRoutingRuleView) -> EnvoyRouteView {
    |rule: GRPCEffectiveRoutingRuleView|
        EnvoyRouteView::of_grpc(rule, chosen(rule.backends, plain_service_share()))
}

/// The route of an HTTP rule, with all backends in their order.
pub open spec fn direct_http_route(rule: HTTPEffectiveRoutingRuleView) -> EnvoyRouteView {
    EnvoyRouteView::of_http(rule, rule.name + "-route"@, chosen(rule.backends, any_share()))
}

/// The route of a gRPC rule, with all backends in their order.
pub open spec fn direct_grpc_route(rule: GRPCEffectiveRoutingRuleView) -> EnvoyRouteView {
    EnvoyRouteView::of_grpc(rule, chosen(rule.backends, any_share()))
}

impl HTTPEffectiveRoutingRule {
    /// The route with the filters that the backends of the rule call for.
    pub fn add_inference_filters(&self, envoy_route: EnvoyRoute) -> (r: EnvoyRoute)
        ensures
            r.deep_view() == envoy_route.deep_view().with_filters(
                inference_filters(envoy_route.name@, self.deep_view().backends),
            ),
    {
        let pools = get_inference_extension_configurations(&self.backends);
        let mut filters: Vec<(String, ExtProcPerRoute)> = no_items();
        if pools.len() > 0 {
            assert(pools.deep_view()[0] == pools[0].deep_view());
            if pools[0].inference_config.is_some() {
                let ghost before = filters.deep_view();
                let entry = (
                    INFERENCE_EXT_PROC_FILTER_NAME.to_owned(),
                    ExtProcPerRoute {
                        request_header_mode: HeaderSendMode::Send,
                        request_body_mode: BodySendMode::FullDuplexStreamed,
                        cluster_name: inference_cluster_name(&envoy_route),
                        failure_mode_allow: false,
                    },
                );
                filters.push(entry);
                assert(filters.deep_view() =~= before.push(entry.deep_view()));
            }
        }
        assert(filters.deep_view() =~= inference_filters(
            envoy_route.name@,
            self.deep_view().backends,
        ));
        EnvoyRoute {
            name: envoy_route.name,
            path_specifier: envoy_route.path_specifier,
            headers: envoy_route.headers,
            request_headers_to_add: envoy_route.request_headers_to_add,
            request_headers_to_remove: envoy_route.request_headers_to_remove,
            action: envoy_route.action,
            typed_per_filter_config: filters,
        }
    }
}

fn route_of_http(
    rule: &HTTPEffectiveRoutingRule,
    name: String,
    clusters: Vec<ClusterWeight>,
) -> (r: EnvoyRoute)
    ensures
        r.deep_view() == EnvoyRouteView::of_http(rule.deep_view(), name@, clusters.deep_view()),
{
    EnvoyRoute {
        name,
        path_specifier: path_of_http(&rule.route_matcher.path),
        headers: create_header_matchers(&rule.route_matcher.headers),
        request_headers_to_add: headers_to_add(&rule.request_headers.add, &rule.request_headers.set),
        request_headers_to_remove: rule.request_headers.remove.dup(),
        action: act_on_http(&rule.redirect_filter, clusters),
        typed_per_filter_config: no_items(),
    }
}

fn route_of_grpc(rule: &GRPCEffectiveRoutingRule, clusters: Vec<ClusterWeight>) -> (r: EnvoyRoute)
    ensures
        r.deep_view() == EnvoyRouteView::of_grpc(rule.deep_view(), clusters.deep_view()),
{
    EnvoyRoute {
        name: cat(rule.name.as_str(), "-grpc-route"),
        path_specifier: path_of_grpc(&rule.route_matcher.method),
        headers: create_header_matchers(&rule.route_matcher.headers),
        request_headers_to_add: headers_to_add(&rule.request_headers.add, &rule.request_headers.set),
        request_headers_to_remove: rule.request_headers.remove.dup(),
        action: Action::Route(
            RouteAction {
                cluster_not_found_response_code: ClusterNotFoundResponseCode::NotFound,
                clusters,
            },
        ),
        typed_per_filter_config: no_items(),
    }
}

impl EnvoyRoute {
    /// The route of an HTTP rule.
    pub fn of_http_rule(rule: &HTTPEffectiveRoutingRule) -> (r: EnvoyRoute)
        ensures
            r.deep_view() == http_route()(rule.deep_view()),
    {
        let services = create_cluster_weights(&rule.backends);
        let pools = choose_list(&rule.backends, weigh_pool, Ghost(pool_share()));
        let clusters = append_list(services, pools);
        let route = route_of_http(rule, envoy_route_name(rule), clusters);
        rule.add_inference_filters(route)
    }
}

impl From<HTTPEffectiveRoutingRule> for EnvoyRoute {
    fn from(rule: HTTPEffectiveRoutingRule) -> (r: EnvoyRoute)
        ensures
            r.deep_view() == http_route()(rule.deep_view()),
    {
        EnvoyRoute::of_http_rule(&rule)
    }
}

impl FromSpecImpl<HTTPEffectiveRoutingRule> for EnvoyRoute {
    open spec fn obeys_from_spec() -> bool {
        false
    }

    open spec fn from_spec(rule: HTTPEffectiveRoutingRule) -> EnvoyRoute {
        arbitrary()
    }
}

impl EnvoyRoute {
    /// The route of a gRPC rule.
    pub fn of_grpc_rule(rule: &GRPCEffectiveRoutingRule) -> (r: EnvoyRoute)
        ensures
            r.deep_view() == grpc_route()(rule.deep_view()),
    {
        let clusters = choose_list(
            &rule.backends,
            weigh_plain_service,
            Ghost(plain_service_share()),
        );
        route_of_grpc(rule, clusters)
    }
}

impl From<GRPCEffectiveRoutingRule> for EnvoyRoute {
    fn from(rule: GRPCEffectiveRoutingRule) -> (r: EnvoyRoute)
        ensures
            r.deep_view() == grpc_route()(rule.deep_view()),
    {
        EnvoyRoute::of_grpc_rule(&rule)
    }
}

impl FromSpecImpl<GRPCEffectiveRoutingRule> for EnvoyRoute {
    open spec fn obeys_from_spec() -> bool {
        false
    }

    open spec fn from_spec(rule: GRPCEffectiveRoutingRule) -> EnvoyRoute {
        arbitrary()
    }
}

impl EnvoyRoute {
    /// The route of an HTTP rule, with all backends in their order.
    pub fn direct_http(rule: &HTTPEffectiveRoutingRule) -> (r: EnvoyRoute)
        ensures
            r.deep_view() == direct_http_route(rule.deep_view()),
    {
        let clusters = choose_list(&rule.backends, weigh_any, Ghost(any_share()));
        route_of_http(rule, cat(rule.name.as_str(), "-route"), clusters)
    }

    /// The route of a gRPC rule, with all backends in their order.
    pub fn direct_grpc(rule: &GRPCEffectiveRoutingRule) -> (r: EnvoyRoute)
        ensures
            r.deep_view() == direct_grpc_route(rule.deep_view()),
    {
        let clusters = choose_list(&rule.backends, weigh_any, Ghost(any_share()));
        route_of_grpc(rule, clusters)
    }
}

/// A route asks for exactly the headers that its rule names, each with exactly the value that the rule
/// gives it, in the order of the rule. It does so whether the rule is for HTTP or for gRPC.
pub proof fn law_route_asks_for_headers(
    http: HTTPEffectiveRoutingRuleView,
    grpc: GRPCEffectiveRoutingRuleView,
)
    ensures
        http.route_matcher.headers is None ==> http_route()(http).headers.len() == 0
            && direct_http_route(http).headers.len() == 0,
        http.route_matcher.headers is Some ==> http_route()(http).headers.len()
            == http.route_matcher.headers->0.len() && direct_http_route(http).headers.len()
            == http.route_matcher.headers->0.len(),
        http.route_matcher.headers is Some ==> forall|i: int|
            0 <= i < http.route_matcher.headers->0.len() ==> {
                let asked = #[trigger] http.route_matcher.headers->0[i];
                &&& http_route()(http).headers[i].name == asked.name
                &&& http_route()(http).headers[i].exact == asked.value
                &&& direct_http_route(http).headers[i].name == asked.name
                &&& direct_http_route(http).headers[i].exact == asked.value
            },
        grpc.route_matcher.headers is None ==> grpc_route()(grpc).headers.len() == 0
            && direct_grpc_route(grpc).headers.len() == 0,
        grpc.route_matcher.headers is Some ==> grpc_route()(grpc).headers.len()
            == grpc.route_matcher.headers->0.len() && direct_grpc_route(grpc).headers.len()
            == grpc.route_matcher.headers->0.len(),
        grpc.route_matcher.headers is Some ==> forall|i: int|
            0 <= i < grpc.route_matcher.headers->0.len() ==> {
                let asked = #[trigger] grpc.route_matcher.headers->0[i];
                &&& grpc_route()(grpc).headers[i].name == asked.name
                &&& grpc_route()(grpc).headers[i].exact == asked.value
                &&& direct_grpc_route(grpc).headers[i].name == asked.name
                &&& direct_grpc_route(grpc).headers[i].exact == asked.value
            },
{
}

/// The headers that a request is given are those to add, which join what is there, and then those to
/// set, which replace it: each under its name with its value.
pub proof fn law_headers_are_given(to_add: Seq<HttpHeaderView>, to_set: Seq<HttpHeaderView>)
    ensures
        header_options(to_add, to_set).len() == to_add.len() + to_set.len(),
        forall|i: int|
            0 <= i < to_add.len() ==> {
                let given = header_options(to_add, to_set)[i];
                &&& given.key == (#[trigger] to_add[i]).name
                &&& given.value == to_add[i].value
                &&& given.append_action == HeaderAppendAction::AppendIfExistsOrAdd
            },
        forall|i: int|
            0 <= i < to_set.len() ==> {
                let given = header_options(to_add, to_set)[to_add.len() + i];
                &&& given.key == (#[trigger] to_set[i]).name
                &&& given.value == to_set[i].value
                &&& given.append_action == HeaderAppendAction::OverwriteIfExistsOrAdd
            },
{
}

/// A route adds, sets and removes the headers that its rule adds, sets and removes.
pub proof fn law_route_changes_headers(
    http: HTTPEffectiveRoutingRuleView,
    grpc: GRPCEffectiveRoutingRuleView,
)
    ensures
        http_route()(http).request_headers_to_remove == http.request_headers.remove,
        direct_http_route(http).request_headers_to_remove == http.request_headers.remove,
        grpc_route()(grpc).request_headers_to_remove == grpc.request_headers.remove,
        direct_grpc_route(grpc).request_headers_to_remove == grpc.request_headers.remove,
        http_route()(http).request_headers_to_add == header_options(
            http.request_headers.add,
            http.request_headers.set,
        ),
        direct_http_route(http).request_headers_to_add == header_options(
            http.request_headers.add,
            http.request_headers.set,
        ),
        grpc_route()(grpc).request_headers_to_add == header_options(
            grpc.request_headers.add,
            grpc.request_headers.set,
        ),
        direct_grpc_route(grpc).request_headers_to_add == header_options(
            grpc.request_headers.add,
            grpc.request_headers.set,
        ),
{
}

/// A route matches the path in the way that its rule asks for: the whole path, a prefix that ends at a
/// slash, or a regular expression; `/` where the rule does not say how. A prefix of `/` is a prefix of
/// all paths.
pub proof fn law_route_matches_path(rule: HTTPEffectiveRoutingRuleView, value: Seq<char>)
    ensures
        rule.route_matcher.path == Some(
            PathMatchView { match_type: Some(PathMatchType::Exact), value: Some(value) },
        ) ==> http_route()(rule).path_specifier == PathSpecifierView::Path(trimmed_path(value))
            && direct_http_route(rule).path_specifier == PathSpecifierView::Path(
            trimmed_path(value),
        ),
        value != "/"@ && rule.route_matcher.path == Some(
            PathMatchView { match_type: Some(PathMatchType::PathPrefix), value: Some(value) },
        ) ==> http_route()(rule).path_specifier == PathSpecifierView::PathSeparatedPrefix(
            trimmed_path(value),
        ) && direct_http_route(rule).path_specifier == PathSpecifierView::PathSeparatedPrefix(
            trimmed_path(value),
        ),
        rule.route_matcher.path == Some(
            PathMatchView { match_type: Some(PathMatchType::PathPrefix), value: Some("/"@) },
        ) ==> http_route()(rule).path_specifier == PathSpecifierView::Prefix(trimmed_path("/"@))
            && direct_http_route(rule).path_specifier == PathSpecifierView::Prefix(
            trimmed_path("/"@),
        ),
        rule.route_matcher.path == Some(
            PathMatchView { match_type: Some(PathMatchType::RegularExpression), value: Some(value) },
        ) ==> http_route()(rule).path_specifier == PathSpecifierView::SafeRegex(trimmed_path(value))
            && direct_http_route(rule).path_specifier == PathSpecifierView::SafeRegex(
            trimmed_path(value),
        ),
        rule.route_matcher.path == Some(
            PathMatchView { match_type: Some(PathMatchType::Exact), value: None },
        ) ==> http_route()(rule).path_specifier == PathSpecifierView::Path("/"@),
        rule.route_matcher.path == Some(
            PathMatchView { match_type: Some(PathMatchType::PathPrefix), value: None },
        ) ==> http_route()(rule).path_specifier == PathSpecifierView::Prefix("/"@),
        rule.route_matcher.path == Some(
            PathMatchView { match_type: Some(PathMatchType::RegularExpression), value: None },
        ) ==> http_route()(rule).path_specifier == PathSpecifierView::SafeRegex("/"@),
        rule.route_matcher.path is None || rule.route_matcher.path->0.match_type is None
            ==> http_route()(rule).path_specifier == PathSpecifierView::Path("/"@)
            && direct_http_route(rule).path_specifier == PathSpecifierView::Path("/"@),
{
}

/// A gRPC route matches the path of the service and the method, in the way that its rule asks for; all
/// paths where the rule does not say how.
pub proof fn law_route_matches_method(
    rule: GRPCEffectiveRoutingRuleView,
    service: Seq<char>,
    method: Seq<char>,
)
    ensures
        rule.route_matcher.method == Some(
            GRPCMethodMatchView {
                method: Some(method),
                service: Some(service),
                match_type: Some(MatchType::Exact),
            },
        ) ==> grpc_route()(rule).path_specifier == PathSpecifierView::Path(
            "/"@ + trimmed_path(service) + "/"@ + method,
        ),
        rule.route_matcher.method == Some(
            GRPCMethodMatchView {
                method: Some(method),
                service: Some(service),
                match_type: Some(MatchType::RegularExpression),
            },
        ) ==> grpc_route()(rule).path_specifier == PathSpecifierView::SafeRegex(
            "/"@ + trimmed_path(service) + "/"@ + method,
        ),
        rule.route_matcher.method == Some(
            GRPCMethodMatchView {
                method: None,
                service: Some(service),
                match_type: Some(MatchType::Exact),
            },
        ) ==> grpc_route()(rule).path_specifier == PathSpecifierView::Path(
            "/"@ + trimmed_path(service),
        ),
        rule.route_matcher.method == Some(
            GRPCMethodMatchView {
                method: None,
                service: Some(service),
                match_type: Some(MatchType::RegularExpression),
            },
        ) ==> grpc_route()(rule).path_specifier == PathSpecifierView::SafeRegex(
            "/"@ + trimmed_path(service),
        ),
        rule.route_matcher.method == Some(
            GRPCMethodMatchView {
                method: Some(method),
                service: None,
                match_type: Some(MatchType::Exact),
            },
        ) ==> grpc_route()(rule).path_specifier == PathSpecifierView::Path(
            "/"@ + "/"@ + "/"@ + method,
        ),
        rule.route_matcher.method is None || rule.route_matcher.method->0.match_type is None
            ==> grpc_route()(rule).path_specifier == PathSpecifierView::Prefix("/"@),
        direct_grpc_route(rule).path_specifier == grpc_route()(rule).path_specifier,
{
}

/// A rule that redirects is made a redirection to the host that it names, with the status that it asks
/// for where that is one of 302, 303, 307 and 308, and else with 301.
pub proof fn law_rule_redirects(rule: HTTPEffectiveRoutingRuleView)
    requires
        rule.redirect_filter is Some,
    ensures
        http_route()(rule).action is Redirect,
        direct_http_route(rule).action == http_route()(rule).action,
        rule.redirect_filter->0.hostname matches Some(hostname)
            ==> http_route()(rule).action->Redirect_0.host_redirect == hostname,
        rule.redirect_filter->0.hostname is None
            ==> http_route()(rule).action->Redirect_0.host_redirect.len() == 0,
        ({
            let code = http_route()(rule).action->Redirect_0.response_code;
            match rule.redirect_filter->0.status_code {
                Some(302i32) => code is Found,
                Some(303i32) => code is SeeOther,
                Some(307i32) => code is TemporaryRedirect,
                Some(308i32) => code is PermanentRedirect,
                _ => code is MovedPermanently,
            }
        }),
{
}

/// A rule that does not redirect shares its requests out. A cluster that is not found is an error of the
/// server for HTTP, and is not found for gRPC.
pub proof fn law_rule_shares_out(
    http: HTTPEffectiveRoutingRuleView,
    grpc: GRPCEffectiveRoutingRuleView,
)
    ensures
        http.redirect_filter is None ==> http_route()(http).action is Route
            && http_route()(http).action->Route_0.cluster_not_found_response_code
            == ClusterNotFoundResponseCode::InternalServerError,
        http.redirect_filter is None ==> direct_http_route(http).action is Route
            && direct_http_route(http).action->Route_0.cluster_not_found_response_code
            == ClusterNotFoundResponseCode::InternalServerError,
        grpc_route()(grpc).action is Route,
        grpc_route()(grpc).action->Route_0.cluster_not_found_response_code
            == ClusterNotFoundResponseCode::NotFound,
        direct_grpc_route(grpc).action is Route,
        direct_grpc_route(grpc).action->Route_0.cluster_not_found_response_code
            == ClusterNotFoundResponseCode::NotFound,
{
}

/// A backend of a positive weight has a share of that weight for the cluster that is named by its name
/// and its namespace; one of no weight has none.
pub proof fn law_share_is_the_weight(key: ResourceKeyView, weight: i32)
    ensures
        weight <= 0 ==> share_of(key, weight) is None,
        weight > 0 ==> share_of(key, weight) is Some && share_of(key, weight)->0.weight == weight
            && share_of(key, weight)->0.name == key.name + "."@ + key.namespace,
{
}

/// Every backend of a positive weight that is a service, a pool or of no known type has its share of the
/// requests of an HTTP rule, whatever is known of the reference to it.
pub proof fn law_http_backend_has_share(rule: HTTPEffectiveRoutingRuleView, i: int)
    requires
        rule.redirect_filter is None,
        0 <= i < rule.backends.len(),
    ensures
        ({
            let typed = rule.backends[i].typed();
            let weight = match typed {
                BackendTypeView::Service(config) => config.weight,
                BackendTypeView::InferencePool(config) => config.weight,
                BackendTypeView::Invalid(config) => config.weight,
            };
            let share = ClusterWeightView {
                name: typed.key().name + "."@ + typed.key().namespace,
                weight: weight as u32,
            };
            weight > 0 ==> http_route()(rule).action->Route_0.clusters.contains(share)
                && direct_http_route(rule).action->Route_0.clusters.contains(share)
        }),
{
    let backend = rule.backends[i];
    let typed = backend.typed();
    let weight = match typed {
        BackendTypeView::Service(config) => config.weight,
        BackendTypeView::InferencePool(config) => config.weight,
        BackendTypeView::Invalid(config) => config.weight,
    };
    let share = ClusterWeightView {
        name: typed.key().name + "."@ + typed.key().namespace,
        weight: weight as u32,
    };
    if weight > 0 {
        let services = chosen(rule.backends, service_share());
        let pools = chosen(rule.backends, pool_share());
        chosen_contains(rule.backends, service_share(), share);
        chosen_contains(rule.backends, pool_share(), share);
        chosen_contains(rule.backends, any_share(), share);
        assert(any_share()(rule.backends[i]) == Some(share));
        if typed is InferencePool {
            assert(pool_share()(rule.backends[i]) == Some(share));
            let k = choose|k: int| 0 <= k < pools.len() && pools[k] == share;
            assert((services + pools)[services.len() + k] == share);
        } else {
            assert(service_share()(rule.backends[i]) == Some(share));
            let k = choose|k: int| 0 <= k < services.len() && services[k] == share;
            assert((services + pools)[k] == share);
        }
    }
}

/// Every share of the requests of an HTTP rule is that of a backend of the rule with that weight.
pub proof fn law_http_share_has_backend(rule: HTTPEffectiveRoutingRuleView, k: int)
    requires
        rule.redirect_filter is None,
        0 <= k < http_route()(rule).action->Route_0.clusters.len(),
    ensures
        exists|i: int|
            0 <= i < rule.backends.len() && (#[trigger] rule.backends[i]).typed().key().name + "."@
                + rule.backends[i].typed().key().namespace
                == http_route()(rule).action->Route_0.clusters[k].name && (match rule.backends[i].typed() {
                BackendTypeView::Service(config) => config.weight,
                BackendTypeView::InferencePool(config) => config.weight,
                BackendTypeView::Invalid(config) => config.weight,
            }) == http_route()(rule).action->Route_0.clusters[k].weight,
{
    let services = chosen(rule.backends, service_share());
    let pools = chosen(rule.backends, pool_share());
    let share = http_route()(rule).action->Route_0.clusters[k];
    assert(share == (services + pools)[k]);
    if k < services.len() {
        assert(services.contains(share));
        chosen_contains(rule.backends, service_share(), share);
        let i = choose|i: int|
            0 <= i < rule.backends.len() && #[trigger] service_share()(rule.backends[i]) == Some(
                share,
            );
        assert(rule.backends[i].typed() is Service || rule.backends[i].typed() is Invalid);
    } else {
        assert(pools[k - services.len()] == share);
        assert(pools.contains(share));
        chosen_contains(rule.backends, pool_share(), share);
        let i = choose|i: int|
            0 <= i < rule.backends.len() && #[trigger] pool_share()(rule.backends[i]) == Some(share);
        assert(rule.backends[i].typed() is InferencePool);
    }
}

/// The shares of a gRPC rule are those of its backends that are services, and only those.
pub proof fn law_grpc_shares(rule: GRPCEffectiveRoutingRuleView, share: ClusterWeightView)
    ensures
        grpc_route()(rule).action->Route_0.clusters.contains(share) <==> exists|i: int|
            0 <= i < rule.backends.len() && (#[trigger] rule.backends[i]).typed() is Service
                && rule.backends[i].typed()->Service_0.weight > 0 && share.weight
                == rule.backends[i].typed()->Service_0.weight && share.name
                == rule.backends[i].typed()->Service_0.resource_key.name + "."@
                + rule.backends[i].typed()->Service_0.resource_key.namespace,
{
    chosen_contains(rule.backends, plain_service_share(), share);
    if grpc_route()(rule).action->Route_0.clusters.contains(share) {
        let i = choose|i: int|
            0 <= i < rule.backends.len() && #[trigger] plain_service_share()(rule.backends[i])
                == Some(share);
        assert(rule.backends[i].typed() is Service);
    }
    if exists|i: int|
        0 <= i < rule.backends.len() && (#[trigger] rule.backends[i]).typed() is Service
            && rule.backends[i].typed()->Service_0.weight > 0 && share.weight
            == rule.backends[i].typed()->Service_0.weight && share.name
            == rule.backends[i].typed()->Service_0.resource_key.name + "."@
            + rule.backends[i].typed()->Service_0.resource_key.namespace {
        let i = choose|i: int|
            0 <= i < rule.backends.len() && (#[trigger] rule.backends[i]).typed() is Service
                && rule.backends[i].typed()->Service_0.weight > 0 && share.weight
                == rule.backends[i].typed()->Service_0.weight && share.name
                == rule.backends[i].typed()->Service_0.resource_key.name + "."@
                + rule.backends[i].typed()->Service_0.resource_key.namespace;
        assert(plain_service_share()(rule.backends[i]) == Some(share));
    }
}

/// Where all backends of a rule have positive weights, the shares stand in the order of the backends.
pub proof fn law_shares_in_order(rule: HTTPEffectiveRoutingRuleView, i: int, j: int)
    requires
        rule.redirect_filter is None,
        0 <= i < j < rule.backends.len(),
        any_share()(rule.backends[i]) is Some,
        any_share()(rule.backends[j]) is Some,
    ensures
        exists|p: int, q: int|
            0 <= p < q < direct_http_route(rule).action->Route_0.clusters.len()
                && #[trigger] direct_http_route(rule).action->Route_0.clusters[p] == any_share()(
                rule.backends[i],
            )->0 && #[trigger] direct_http_route(rule).action->Route_0.clusters[q] == any_share()(
                rule.backends[j],
            )->0,
{
    law_chosen_in_order(rule.backends, any_share(), i, j);
    let all = chosen(rule.backends, any_share());
    let (p, q) = choose|p: int, q: int|
        0 <= p < q < all.len() && #[trigger] all[p] == any_share()(rule.backends[i])->0
            && #[trigger] all[q] == any_share()(rule.backends[j])->0;
    assert(direct_http_route(rule).action->Route_0.clusters[p] == all[p]);
    assert(direct_http_route(rule).action->Route_0.clusters[q] == all[q]);
}

/// A route has the name of its rule, with what tells its kind.
pub proof fn law_route_is_named(
    http: HTTPEffectiveRoutingRuleView,
    grpc: GRPCEffectiveRoutingRuleView,
)
    ensures
        http_route()(http).name == http.name + "_route"@,
        direct_http_route(http).name == http.name + "-route"@,
        grpc_route()(grpc).name == grpc.name + "-grpc-route"@,
        direct_grpc_route(grpc).name == grpc.name + "-grpc-route"@,
{
}

/// Where the first pool among the backends of a rule is configured, and only there, the extension of the
/// route processes the requests: their headers, and their bodies in both directions.
pub proof fn law_pool_is_asked(rule: HTTPEffectiveRoutingRuleView, i: int)
    requires
        0 <= i < rule.backends.len(),
        rule.backends[i].typed() is InferencePool,
        forall|j: int| 0 <= j < i ==> !((#[trigger] rule.backends[j]).typed() is InferencePool),
    ensures
        direct_http_route(rule).typed_per_filter_config.len() == 0,
        rule.backends[i].typed()->InferencePool_0.inference_config is None
            ==> http_route()(rule).typed_per_filter_config.len() == 0,
        rule.backends[i].typed()->InferencePool_0.inference_config is Some ==> {
            let filters = http_route()(rule).typed_per_filter_config;
            &&& filters.len() == 1
            &&& filters[0].0 == "inference.filters.http.ext_proc"@
            &&& filters[0].1.request_header_mode == HeaderSendMode::Send
            &&& filters[0].1.request_body_mode == BodySendMode::FullDuplexStreamed
            &&& filters[0].1.cluster_name == rule.name + "_route"@ + "-extsvc"@
            &&& !filters[0].1.failure_mode_allow
        },
{
    law_first_pool(rule.backends, i);
}

/// A rule without pools has no filters.
pub proof fn law_no_pool_is_asked(rule: HTTPEffectiveRoutingRuleView)
    requires
        forall|j: int|
            0 <= j < rule.backends.len() ==> !((#[trigger] rule.backends[j]).typed() is InferencePool),
    ensures
        http_route()(rule).typed_per_filter_config.len() == 0,
{
    let pools = chosen(rule.backends, pool_config());
    if pools.len() > 0 {
        assert(pools.contains(pools[0]));
        chosen_contains(rule.backends, pool_config(), pools[0]);
    }
}

} // verus!

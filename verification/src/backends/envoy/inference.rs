//! The clusters of the extensions that pick endpoints of inference pools.
use vstd::prelude::*;
use crate::backends::envoy::resources::EnvoyRoute;
use crate::common::backend::{
    Backend,
    BackendType,
    BackendTypeView,
    BackendView,
    InferencePoolTypeConfig,
    InferencePoolTypeConfigView,
};
use crate::common::route::{HTTPEffectiveRoutingRule, HTTPEffectiveRoutingRuleView};
use crate::lists::{choose_list, chosen, chosen_contains, law_chosen_of_both, law_chosen_of_one};
use crate::model::Model;
use crate::text::cat;

verus! {

/// The name of the filter that hands requests to an extension.
pub const INFERENCE_EXT_PROC_FILTER_NAME: &'static str = "inference.filters.http.ext_proc";

/// The name of the cluster of the extension of a route, by the name of the route.
pub open spec fn extension_cluster(name: Seq<char>) -> Seq<char> {
    name + "-extsvc"@
}

/// The name of the cluster of the extension of a route, by the name of the route.
pub fn make_inference_cluster_name(name: String) -> (r: String)
    ensures
        r@ == extension_cluster(name@),
{
    cat(name.as_str(), "-extsvc")
}

/// The name of the cluster of the extension of a route.
pub fn inference_cluster_name(envoy_route: &EnvoyRoute) -> (r: String)
    ensures
        r@ == extension_cluster(envoy_route.name@),
{
    make_inference_cluster_name(envoy_route.name.dup())
}

impl HTTPEffectiveRoutingRuleView {
    /// The name of the route of the rule.
    pub open spec fn route_name(self) -> Seq<char> {
        self.name + "_route"@
    }
}

/// The name of the route of a rule.
pub fn envoy_route_name(effective_route: &HTTPEffectiveRoutingRule) -> (r: String)
    ensures
        r@ == effective_route.deep_view().route_name(),
{
    cat(effective_route.name.as_str(), "_route")
}

impl HTTPEffectiveRoutingRule {
    /// The name of the cluster of the extension of the route of the rule.
    pub fn inference_cluster_name(&self) -> (r: String)
        ensures
            r@ == extension_cluster(self.deep_view().route_name()),
    {
        make_inference_cluster_name(envoy_route_name(self))
    }
}

/// The cluster of an extension, with the pool that it picks endpoints of.
#[derive(Debug, PartialEq, Eq)]
pub struct InferenceClusterInfo {
    pub cluster_name: String,
    pub config: InferencePoolTypeConfig,
}

/// What a [`InferenceClusterInfo`] holds.
#[verifier::ext_equal]
pub struct InferenceClusterInfoView {
    pub cluster_name: Seq<char>,
    pub config: InferencePoolTypeConfigView,
}

impl DeepView for InferenceClusterInfo {
    type V = InferenceClusterInfoView;

    open spec fn deep_view(&self) -> InferenceClusterInfoView {
        InferenceClusterInfoView {
            cluster_name: self.cluster_name.deep_view(),
            config: self.config.deep_view(),
        }
    }
}

impl Model for InferenceClusterInfo {
    fn dup(&self) -> (r: Self) {
        InferenceClusterInfo {
            cluster_name: self.cluster_name.dup(),
            config: self.config.dup(),
        }
    }

    fn same(&self, other: &Self) -> (r: bool) {
        self.cluster_name.same(&other.cluster_name)
            && self.config.same(&other.config)
    }
}

impl InferenceClusterInfo {
    /// The name of the cluster.
    pub fn cluster_name(&self) -> (r: &str)
        ensures
            r@ == self.cluster_name@,
    {
        self.cluster_name.as_str()
    }
}

/// The pool that a backend is, if it is one.
pub open spec fn pool_config() -> spec_fn(BackendView) -> Option<InferencePoolTypeConfigView> {
    |backend: BackendView|
        match backend.typed() {
            BackendTypeView::InferencePool(config) => Some(config),
            _ => None,
        }
}

fn config_of_pool(backend: &Backend) -> (r: Option<InferencePoolTypeConfig>)
    ensures
        r.deep_view() == pool_config()(backend.deep_view()),
{
    match backend.backend_type() {
        BackendType::InferencePool(config) => Some(config.dup()),
        _ => None,
    }
}

/// The pools among some backends.
pub fn get_inference_extension_configurations(backends: &Vec<Backend>) -> (r: Vec<
    InferencePoolTypeConfig,
>)
    ensures
        r.deep_view() == chosen(backends.deep_view(), pool_config()),
{
    choose_list(backends, config_of_pool, Ghost(pool_config()))
}

/// The cluster of the extension of a rule: that of the first pool among its backends.
pub open spec fn rule_extension() -> spec_fn(HTTPEffectiveRoutingRuleView) -> Option<
    InferenceClusterInfoView,
> {
    |rule: HTTPEffectiveRoutingRuleView|
        {
            let pools = chosen(rule.backends, pool_config());
            if pools.len() > 0 {
                Some(
                    InferenceClusterInfoView {
                        cluster_name: extension_cluster(rule.route_name()),
                        config: pools[0],
                    },
                )
            } else {
                None
            }
        }
}

/// The cluster of the extension of a rule: that of the first pool among its backends.
pub fn get_inference_pool_configurations(effective_route: &HTTPEffectiveRoutingRule) -> (r: Option<
    InferenceClusterInfo,
>)
    ensures
        r.deep_view() == rule_extension()(effective_route.deep_view()),
{
    let pools = get_inference_extension_configurations(&effective_route.backends);
    if pools.len() > 0 {
        assert(pools.deep_view()[0] == pools[0].deep_view());
        Some(
            InferenceClusterInfo {
                cluster_name: effective_route.inference_cluster_name(),
                config: pools[0].dup(),
            },
        )
    } else {
        None
    }
}

/// The first pool among some backends is the first of their pools.
pub proof fn law_first_pool(backends: Seq<BackendView>, i: int)
    requires
        0 <= i < backends.len(),
        backends[i].typed() is InferencePool,
        forall|j: int| 0 <= j < i ==> !((#[trigger] backends[j]).typed() is InferencePool),
    ensures
        chosen(backends, pool_config()).len() > 0,
        chosen(backends, pool_config())[0] == backends[i].typed()->InferencePool_0,
{
    let before = backends.take(i);
    let one = seq![backends[i]];
    let after = backends.skip(i + 1);
    let give = pool_config();
    assert(backends =~= (before + one) + after);
    law_chosen_of_both(before + one, after, give);
    law_chosen_of_both(before, one, give);
    law_chosen_of_one(backends[i], give);
    if chosen(before, give).len() > 0 {
        let pool = chosen(before, give)[0];
        assert(chosen(before, give).contains(pool));
        chosen_contains(before, give, pool);
        let j = choose|j: int| 0 <= j < before.len() && #[trigger] give(before[j]) == Some(pool);
        assert(backends[j] == before[j]);
    }
}

/// The extension of a rule is that of the first pool among its backends, under the name of its route;
/// a rule without pools has none.
pub proof fn law_rule_extension(rule: HTTPEffectiveRoutingRuleView)
    ensures
        rule_extension()(rule) is Some <==> exists|i: int|
            0 <= i < rule.backends.len() && (#[trigger] rule.backends[i]).typed() is InferencePool,
        rule_extension()(rule) is Some ==> rule_extension()(rule)->0.cluster_name == rule.name
            + "_route"@ + "-extsvc"@,
        forall|i: int|
            0 <= i < rule.backends.len() && (#[trigger] rule.backends[i]).typed() is InferencePool
                && (forall|j: int|
                0 <= j < i ==> !((#[trigger] rule.backends[j]).typed() is InferencePool))
                ==> rule_extension()(rule)->0.config == rule.backends[i].typed()->InferencePool_0,
{
    let pools = chosen(rule.backends, pool_config());
    if pools.len() > 0 {
        assert(pools.contains(pools[0]));
        chosen_contains(rule.backends, pool_config(), pools[0]);
        let i = choose|i: int|
            0 <= i < rule.backends.len() && #[trigger] pool_config()(rule.backends[i]) == Some(
                pools[0],
            );
        assert(rule.backends[i].typed() is InferencePool);
    }
    if exists|i: int|
        0 <= i < rule.backends.len() && (#[trigger] rule.backends[i]).typed() is InferencePool {
        let i = choose|i: int|
            0 <= i < rule.backends.len() && (#[trigger] rule.backends[i]).typed() is InferencePool;
        let pool = rule.backends[i].typed()->InferencePool_0;
        assert(pool_config()(rule.backends[i]) == Some(pool));
        chosen_contains(rule.backends, pool_config(), pool);
    }
    assert forall|i: int|
        0 <= i < rule.backends.len() && (#[trigger] rule.backends[i]).typed() is InferencePool && (
        forall|j: int| 0 <= j < i ==> !((#[trigger] rule.backends[j]).typed() is InferencePool)) implies rule_extension()(
        rule,
    )->0.config == rule.backends[i].typed()->InferencePool_0 by {
        law_first_pool(rule.backends, i);
    }
}

} // verus!

//! What the parts of the control plane tell each other.
use vstd::prelude::*;
use crate::common::address::{DeployedGatewayStatus, DeployedGatewayStatusView};
use crate::common::gateway::{Gateway, GatewayView};
use crate::common::kube::{GatewayListener, GatewayListenerView, KubeGateway, KubeGatewayView};
use crate::common::resource_key::{
    DEFAULT_GROUP_NAME,
    DEFAULT_KIND_NAME,
    DEFAULT_NAMESPACE_NAME,
    ResourceKey,
    ResourceKeyView,
};
use crate::common::route::{Route, RouteStatus, RouteView};
use crate::common::route_set::{RouteSet, law_with_new_route, route_keys, with_new_route};
use crate::model::Model;
use crate::ordered::{OrderedMap, OrderedSet, increasing, keys, law_put, put, table};
use crate::text::{cat, cat3, count_text, decimal, decimal_text};

verus! {

/// A gateway that changed: as it is now, as the cluster has it, and the class that it is of.
#[derive(Debug)]
pub struct ChangedContext {
    pub gateway: Gateway,
    pub kube_gateway: KubeGateway,
    pub gateway_class_name: String,
}

/// What a [`ChangedContext`] holds.
#[verifier::ext_equal]
pub struct ChangedContextView {
    pub gateway: GatewayView,
    pub kube_gateway: KubeGatewayView,
    pub gateway_class_name: Seq<char>,
}

impl DeepView for ChangedContext {
    type V = ChangedContextView;

    open spec fn deep_view(&self) -> ChangedContextView {
        ChangedContextView {
            gateway: self.gateway.deep_view(),
            kube_gateway: self.kube_gateway.deep_view(),
            gateway_class_name: self.gateway_class_name.deep_view(),
        }
    }
}

impl Model for ChangedContext {
    fn dup(&self) -> (r: Self) {
        ChangedContext {
            gateway: self.gateway.dup(),
            kube_gateway: self.kube_gateway.dup(),
            gateway_class_name: self.gateway_class_name.dup(),
        }
    }

    fn same(&self, other: &Self) -> (r: bool) {
        self.gateway.same(&other.gateway)
            && self.kube_gateway.same(&other.kube_gateway)
            && self.gateway_class_name.same(&other.gateway_class_name)
    }
}

impl GatewayView {
    /// The text that a change of the gateway is shown by.
    pub open spec fn shown(self) -> Seq<char> {
        "Gateway "@ + self.resource_key.name + "."@ + self.resource_key.namespace + " listeners = "@
            + decimal(self.listeners.len() as int) + " "@
    }
}

impl Gateway {
    /// The text that a change of the gateway is shown by.
    pub fn to_text(&self) -> (r: String)
        ensures
            r@ == self.deep_view().shown(),
    {
        let start = cat3("Gateway ", self.name(), ".");
        let middle = cat3(start.as_str(), self.namespace(), " listeners = ");
        let count = count_text(self.listeners.len());
        cat3(middle.as_str(), count.as_str(), " ")
    }
}

impl ChangedContext {
    /// The text that the change is shown by.
    pub fn to_text(&self) -> (r: String)
        ensures
            r@ == self.deep_view().gateway.shown(),
    {
        self.gateway.to_text()
    }
}

/// A gateway that was deleted.
#[derive(Debug)]
pub struct DeletedContext {
    pub gateway: Gateway,
}

/// What a [`DeletedContext`] holds.
#[verifier::ext_equal]
pub struct DeletedContextView {
    pub gateway: GatewayView,
}

impl DeepView for DeletedContext {
    type V = DeletedContextView;

    open spec fn deep_view(&self) -> DeletedContextView {
        DeletedContextView {
            gateway: self.gateway.deep_view(),
        }
    }
}

impl Model for DeletedContext {
    fn dup(&self) -> (r: Self) {
        DeletedContext {
            gateway: self.gateway.dup(),
        }
    }

    fn same(&self, other: &Self) -> (r: bool) {
        self.gateway.same(&other.gateway)
    }
}

/// What a data plane is told: a gateway changed or was deleted.
#[derive(Debug)]
pub enum BackendGatewayEvent {
    Changed(ChangedContext),
    Deleted(DeletedContext),
}

/// What a [`BackendGatewayEvent`] holds.
#[verifier::ext_equal]
pub enum BackendGatewayEventView {
    Changed(ChangedContextView),
    Deleted(DeletedContextView),
}

impl DeepView for BackendGatewayEvent {
    type V = BackendGatewayEventView;

    open spec fn deep_view(&self) -> BackendGatewayEventView {
        match self {
            BackendGatewayEvent::Changed(x0) => BackendGatewayEventView::Changed(x0.deep_view()),
            BackendGatewayEvent::Deleted(x0) => BackendGatewayEventView::Deleted(x0.deep_view()),
        }
    }
}

impl Model for BackendGatewayEvent {
    fn dup(&self) -> (r: Self) {
        match self {
            BackendGatewayEvent::Changed(x0) => BackendGatewayEvent::Changed(x0.dup()),
            BackendGatewayEvent::Deleted(x0) => BackendGatewayEvent::Deleted(x0.dup()),
        }
    }

    fn same(&self, other: &Self) -> (r: bool) {
        match (self, other) {
            (BackendGatewayEvent::Changed(x0), BackendGatewayEvent::Changed(x0_)) => x0.same(x0_),
            (BackendGatewayEvent::Deleted(x0), BackendGatewayEvent::Deleted(x0_)) => x0.same(x0_),
            _ => false,
        }
    }
}

impl BackendGatewayEventView {
    /// The text that the event is shown by. `detail` is what is shown of all that is in a gateway.
    pub open spec fn shown(self, detail: Seq<char>) -> Seq<char> {
        match self {
            BackendGatewayEventView::Changed(context) => "GatewayEvent::GatewayChanged "@
                + context.gateway.shown(),
            BackendGatewayEventView::Deleted(_) => "GatewayEvent::GatewayDeleted gateway "@ + detail,
        }
    }
}

impl BackendGatewayEvent {
    /// The text that the event is shown by.
    pub fn to_text(&self, detail: &str) -> (r: String)
        ensures
            r@ == self.deep_view().shown(detail@),
    {
        match self {
            BackendGatewayEvent::Changed(context) => {
                let text = context.to_text();
                cat("GatewayEvent::GatewayChanged ", text.as_str())
            },
            BackendGatewayEvent::Deleted(_) => cat("GatewayEvent::GatewayDeleted gateway ", detail),
        }
    }
}

/// A gateway that something is asked for: as it is now, as the cluster has it, and the class that it is
/// of.
#[derive(Debug)]
pub struct RequestContext {
    pub gateway: Gateway,
    pub kube_gateway: KubeGateway,
    pub gateway_class_name: String,
}

/// What a [`RequestContext`] holds.
#[verifier::ext_equal]
pub struct RequestContextView {
    pub gateway: GatewayView,
    pub kube_gateway: KubeGatewayView,
    pub gateway_class_name: Seq<char>,
}

impl DeepView for RequestContext {
    type V = RequestContextView;

    open spec fn deep_view(&self) -> RequestContextView {
        RequestContextView {
            gateway: self.gateway.deep_view(),
            kube_gateway: self.kube_gateway.deep_view(),
            gateway_class_name: self.gateway_class_name.deep_view(),
        }
    }
}

impl Model for RequestContext {
    fn dup(&self) -> (r: Self) {
        RequestContext {
            gateway: self.gateway.dup(),
            kube_gateway: self.kube_gateway.dup(),
            gateway_class_name: self.gateway_class_name.dup(),
        }
    }

    fn same(&self, other: &Self) -> (r: bool) {
        self.gateway.same(&other.gateway)
            && self.kube_gateway.same(&other.kube_gateway)
            && self.gateway_class_name.same(&other.gateway_class_name)
    }
}

/// What is asked of the part that deploys gateways.
#[derive(Debug)]
pub enum GatewayDeployRequest {
    Deploy(RequestContext),
}

/// What a [`GatewayDeployRequest`] holds.
#[verifier::ext_equal]
pub enum GatewayDeployRequestView {
    Deploy(RequestContextView),
}

impl DeepView for GatewayDeployRequest {
    type V = GatewayDeployRequestView;

    open spec fn deep_view(&self) -> GatewayDeployRequestView {
        match self {
            GatewayDeployRequest::Deploy(x0) => GatewayDeployRequestView::Deploy(x0.deep_view()),
        }
    }
}

impl Model for GatewayDeployRequest {
    fn dup(&self) -> (r: Self) {
        match self {
            GatewayDeployRequest::Deploy(x0) => GatewayDeployRequest::Deploy(x0.dup()),
        }
    }

    fn same(&self, other: &Self) -> (r: bool) {
        match (self, other) {
            (GatewayDeployRequest::Deploy(x0), GatewayDeployRequest::Deploy(x0_)) => x0.same(x0_),
        }
    }
}

/// What is asked of the part that resolves references.
#[derive(Debug)]
pub enum ReferenceResolveRequest {
    New(RequestContext),
    Remove(Gateway),
}

/// What a [`ReferenceResolveRequest`] holds.
#[verifier::ext_equal]
pub enum ReferenceResolveRequestView {
    New(RequestContextView),
    Remove(GatewayView),
}

impl DeepView for ReferenceResolveRequest {
    type V = ReferenceResolveRequestView;

    open spec fn deep_view(&self) -> ReferenceResolveRequestView {
        match self {
            ReferenceResolveRequest::New(x0) => ReferenceResolveRequestView::New(x0.deep_view()),
            ReferenceResolveRequest::Remove(x0) => ReferenceResolveRequestView::Remove(x0.deep_view()),
        }
    }
}

impl Model for ReferenceResolveRequest {
    fn dup(&self) -> (r: Self) {
        match self {
            ReferenceResolveRequest::New(x0) => ReferenceResolveRequest::New(x0.dup()),
            ReferenceResolveRequest::Remove(x0) => ReferenceResolveRequest::Remove(x0.dup()),
        }
    }

    fn same(&self, other: &Self) -> (r: bool) {
        match (self, other) {
            (ReferenceResolveRequest::New(x0), ReferenceResolveRequest::New(x0_)) => x0.same(x0_),
            (ReferenceResolveRequest::Remove(x0), ReferenceResolveRequest::Remove(x0_)) => x0.same(x0_),
            _ => false,
        }
    }
}

/// What a data plane answers.
#[derive(Debug)]
pub enum BackendGatewayResponse {
    Processed(Gateway),
    ProcessedWithContext { gateway: Gateway, kube_gateway: KubeGateway, gateway_class_name: String },
    Deleted(Vec<RouteStatus>),
    ProcessingError,
}

/// What a [`BackendGatewayResponse`] holds.
#[verifier::ext_equal]
pub enum BackendGatewayResponseView {
    Processed(GatewayView),
    ProcessedWithContext { gateway: GatewayView, kube_gateway: KubeGatewayView, gateway_class_name: Seq<char> },
    Deleted(Seq<RouteStatus>),
    ProcessingError,
}

impl DeepView for BackendGatewayResponse {
    type V = BackendGatewayResponseView;

    open spec fn deep_view(&self) -> BackendGatewayResponseView {
        match self {
            BackendGatewayResponse::Processed(x0) => BackendGatewayResponseView::Processed(x0.deep_view()),
            BackendGatewayResponse::ProcessedWithContext { gateway, kube_gateway, gateway_class_name } => BackendGatewayResponseView::ProcessedWithContext { gateway: gateway.deep_view(), kube_gateway: kube_gateway.deep_view(), gateway_class_name: gateway_class_name.deep_view() },
            BackendGatewayResponse::Deleted(x0) => BackendGatewayResponseView::Deleted(x0.deep_view()),
            BackendGatewayResponse::ProcessingError => BackendGatewayResponseView::ProcessingError,
        }
    }
}

impl Model for BackendGatewayResponse {
    fn dup(&self) -> (r: Self) {
        match self {
            BackendGatewayResponse::Processed(x0) => BackendGatewayResponse::Processed(x0.dup()),
            BackendGatewayResponse::ProcessedWithContext { gateway, kube_gateway, gateway_class_name } => BackendGatewayResponse::ProcessedWithContext { gateway: gateway.dup(), kube_gateway: kube_gateway.dup(), gateway_class_name: gateway_class_name.dup() },
            BackendGatewayResponse::Deleted(x0) => BackendGatewayResponse::Deleted(x0.dup()),
            BackendGatewayResponse::ProcessingError => BackendGatewayResponse::ProcessingError,
        }
    }

    fn same(&self, other: &Self) -> (r: bool) {
        match (self, other) {
            (BackendGatewayResponse::Processed(x0), BackendGatewayResponse::Processed(x0_)) => x0.same(x0_),
            (BackendGatewayResponse::ProcessedWithContext { gateway, kube_gateway, gateway_class_name }, BackendGatewayResponse::ProcessedWithContext { gateway: gateway_, kube_gateway: kube_gateway_, gateway_class_name: gateway_class_name_ }) => gateway.same(gateway_) && kube_gateway.same(kube_gateway_) && gateway_class_name.same(gateway_class_name_),
            (BackendGatewayResponse::Deleted(x0), BackendGatewayResponse::Deleted(x0_)) => x0.same(x0_),
            (BackendGatewayResponse::ProcessingError, BackendGatewayResponse::ProcessingError) => true,
            _ => false,
        }
    }
}

/// What is asked of the part that validates references.
#[derive(Debug)]
pub enum ReferenceValidateRequest {
    AddGateway(RequestContext),
    AddRoute { route_key: ResourceKey, references: OrderedSet<ResourceKey> },
    UpdatedGateways { reference: ResourceKey, gateways: OrderedSet<ResourceKey> },
    UpdatedRoutes { reference: ResourceKey, updated_routes: OrderedSet<ResourceKey> },
    DeleteRoute { route_key: ResourceKey, references: OrderedSet<ResourceKey> },
    DeleteGateway { gateway: Gateway },
}

/// What a [`ReferenceValidateRequest`] holds.
#[verifier::ext_equal]
pub enum ReferenceValidateRequestView {
    AddGateway(RequestContextView),
    AddRoute { route_key: ResourceKeyView, references: Seq<ResourceKeyView> },
    UpdatedGateways { reference: ResourceKeyView, gateways: Seq<ResourceKeyView> },
    UpdatedRoutes { reference: ResourceKeyView, updated_routes: Seq<ResourceKeyView> },
    DeleteRoute { route_key: ResourceKeyView, references: Seq<ResourceKeyView> },
    DeleteGateway { gateway: GatewayView },
}

impl DeepView for ReferenceValidateRequest {
    type V = ReferenceValidateRequestView;

    open spec fn deep_view(&self) -> ReferenceValidateRequestView {
        match self {
            ReferenceValidateRequest::AddGateway(x0) => ReferenceValidateRequestView::AddGateway(x0.deep_view()),
            ReferenceValidateRequest::AddRoute { route_key, references } => ReferenceValidateRequestView::AddRoute { route_key: route_key.deep_view(), references: references.deep_view() },
            ReferenceValidateRequest::UpdatedGateways { reference, gateways } => ReferenceValidateRequestView::UpdatedGateways { reference: reference.deep_view(), gateways: gateways.deep_view() },
            ReferenceValidateRequest::UpdatedRoutes { reference, updated_routes } => ReferenceValidateRequestView::UpdatedRoutes { reference: reference.deep_view(), updated_routes: updated_routes.deep_view() },
            ReferenceValidateRequest::DeleteRoute { route_key, references } => ReferenceValidateRequestView::DeleteRoute { route_key: route_key.deep_view(), references: references.deep_view() },
            ReferenceValidateRequest::DeleteGateway { gateway } => ReferenceValidateRequestView::DeleteGateway { gateway: gateway.deep_view() },
        }
    }
}

impl Model for ReferenceValidateRequest {
    fn dup(&self) -> (r: Self) {
        match self {
            ReferenceValidateRequest::AddGateway(x0) => ReferenceValidateRequest::AddGateway(x0.dup()),
            ReferenceValidateRequest::AddRoute { route_key, references } => ReferenceValidateRequest::AddRoute { route_key: route_key.dup(), references: references.dup() },
            ReferenceValidateRequest::UpdatedGateways { reference, gateways } => ReferenceValidateRequest::UpdatedGateways { reference: reference.dup(), gateways: gateways.dup() },
            ReferenceValidateRequest::UpdatedRoutes { reference, updated_routes } => ReferenceValidateRequest::UpdatedRoutes { reference: reference.dup(), updated_routes: updated_routes.dup() },
            ReferenceValidateRequest::DeleteRoute { route_key, references } => ReferenceValidateRequest::DeleteRoute { route_key: route_key.dup(), references: references.dup() },
            ReferenceValidateRequest::DeleteGateway { gateway } => ReferenceValidateRequest::DeleteGateway { gateway: gateway.dup() },
        }
    }

    fn same(&self, other: &Self) -> (r: bool) {
        match (self, other) {
            (ReferenceValidateRequest::AddGateway(x0), ReferenceValidateRequest::AddGateway(x0_)) => x0.same(x0_),
            (ReferenceValidateRequest::AddRoute { route_key, references }, ReferenceValidateRequest::AddRoute { route_key: route_key_, references: references_ }) => route_key.same(route_key_) && references.same(references_),
            (ReferenceValidateRequest::UpdatedGateways { reference, gateways }, ReferenceValidateRequest::UpdatedGateways { reference: reference_, gateways: gateways_ }) => reference.same(reference_) && gateways.same(gateways_),
            (ReferenceValidateRequest::UpdatedRoutes { reference, updated_routes }, ReferenceValidateRequest::UpdatedRoutes { reference: reference_, updated_routes: updated_routes_ }) => reference.same(reference_) && updated_routes.same(updated_routes_),
            (ReferenceValidateRequest::DeleteRoute { route_key, references }, ReferenceValidateRequest::DeleteRoute { route_key: route_key_, references: references_ }) => route_key.same(route_key_) && references.same(references_),
            (ReferenceValidateRequest::DeleteGateway { gateway }, ReferenceValidateRequest::DeleteGateway { gateway: gateway_ }) => gateway.same(gateway_),
            _ => false,
        }
    }
}

/// What became of a route, and of the gateway that it is attached to.
#[derive(Debug, PartialEq, Eq)]
pub struct RouteProcessedPayload {
    pub route_status: RouteStatus,
    pub deployed_gateway_status: DeployedGatewayStatus,
}

/// What a [`RouteProcessedPayload`] holds.
#[verifier::ext_equal]
pub struct RouteProcessedPayloadView {
    pub route_status: RouteStatus,
    pub deployed_gateway_status: DeployedGatewayStatusView,
}

impl DeepView for RouteProcessedPayload {
    type V = RouteProcessedPayloadView;

    open spec fn deep_view(&self) -> RouteProcessedPayloadView {
        RouteProcessedPayloadView {
            route_status: self.route_status.deep_view(),
            deployed_gateway_status: self.deployed_gateway_status.deep_view(),
        }
    }
}

impl Model for RouteProcessedPayload {
    fn dup(&self) -> (r: Self) {
        RouteProcessedPayload {
            route_status: self.route_status.dup(),
            deployed_gateway_status: self.deployed_gateway_status.dup(),
        }
    }

    fn same(&self, other: &Self) -> (r: bool) {
        self.route_status.same(&other.route_status)
            && self.deployed_gateway_status.same(&other.deployed_gateway_status)
    }
}

impl RouteProcessedPayload {
    /// What became of a route, and of the gateway that it is attached to.
    pub fn new(status: RouteStatus, gateway_status: DeployedGatewayStatus) -> (r: Self)
        ensures
            r.route_status == status,
            r.deployed_gateway_status == gateway_status,
    {
        RouteProcessedPayload { route_status: status, deployed_gateway_status: gateway_status }
    }
}

/// What is answered where a gateway or a route changed.
#[derive(Debug)]
pub enum GatewayResponse {
    GatewayProcessed(Gateway),
    GatewayDeleted(Vec<RouteStatus>),
    RouteProcessed(RouteProcessedPayload),
    GatewayProcessingError,
    RouteProcessingError,
}

/// What a [`GatewayResponse`] holds.
#[verifier::ext_equal]
pub enum GatewayResponseView {
    GatewayProcessed(GatewayView),
    GatewayDeleted(Seq<RouteStatus>),
    RouteProcessed(RouteProcessedPayloadView),
    GatewayProcessingError,
    RouteProcessingError,
}

impl DeepView for GatewayResponse {
    type V = GatewayResponseView;

    open spec fn deep_view(&self) -> GatewayResponseView {
        match self {
            GatewayResponse::GatewayProcessed(x0) => GatewayResponseView::GatewayProcessed(x0.deep_view()),
            GatewayResponse::GatewayDeleted(x0) => GatewayResponseView::GatewayDeleted(x0.deep_view()),
            GatewayResponse::RouteProcessed(x0) => GatewayResponseView::RouteProcessed(x0.deep_view()),
            GatewayResponse::GatewayProcessingError => GatewayResponseView::GatewayProcessingError,
            GatewayResponse::RouteProcessingError => GatewayResponseView::RouteProcessingError,
        }
    }
}

impl Model for GatewayResponse {
    fn dup(&self) -> (r: Self) {
        match self {
            GatewayResponse::GatewayProcessed(x0) => GatewayResponse::GatewayProcessed(x0.dup()),
            GatewayResponse::GatewayDeleted(x0) => GatewayResponse::GatewayDeleted(x0.dup()),
            GatewayResponse::RouteProcessed(x0) => GatewayResponse::RouteProcessed(x0.dup()),
            GatewayResponse::GatewayProcessingError => GatewayResponse::GatewayProcessingError,
            GatewayResponse::RouteProcessingError => GatewayResponse::RouteProcessingError,
        }
    }

    fn same(&self, other: &Self) -> (r: bool) {
        match (self, other) {
            (GatewayResponse::GatewayProcessed(x0), GatewayResponse::GatewayProcessed(x0_)) => x0.same(x0_),
            (GatewayResponse::GatewayDeleted(x0), GatewayResponse::GatewayDeleted(x0_)) => x0.same(x0_),
            (GatewayResponse::RouteProcessed(x0), GatewayResponse::RouteProcessed(x0_)) => x0.same(x0_),
            (GatewayResponse::GatewayProcessingError, GatewayResponse::GatewayProcessingError) => true,
            (GatewayResponse::RouteProcessingError, GatewayResponse::RouteProcessingError) => true,
            _ => false,
        }
    }
}

/// A route, with the listeners that it is attached to.
#[derive(Debug)]
pub struct RouteToListenersMapping {
    pub route: Route,
    pub listeners: Vec<GatewayListener>,
}

/// What a [`RouteToListenersMapping`] holds.
#[verifier::ext_equal]
pub struct RouteToListenersMappingView {
    pub route: RouteView,
    pub listeners: Seq<GatewayListenerView>,
}

impl DeepView for RouteToListenersMapping {
    type V = RouteToListenersMappingView;

    open spec fn deep_view(&self) -> RouteToListenersMappingView {
        RouteToListenersMappingView {
            route: self.route.deep_view(),
            listeners: self.listeners.deep_view(),
        }
    }
}

impl Model for RouteToListenersMapping {
    fn dup(&self) -> (r: Self) {
        RouteToListenersMapping {
            route: self.route.dup(),
            listeners: self.listeners.dup(),
        }
    }

    fn same(&self, other: &Self) -> (r: bool) {
        self.route.same(&other.route)
            && self.listeners.same(&other.listeners)
    }
}

/// The listeners, one after the other, as a mapping shows them.
pub open spec fn shown_listeners(listeners: Seq<GatewayListenerView>) -> Seq<char>
    decreases listeners.len(),
{
    if listeners.len() == 0 {
        Seq::empty()
    } else {
        shown_listeners(listeners.drop_last()) + ("  Listener(name: "@ + listeners.last().name
            + " port: "@ + decimal(listeners.last().port as int) + "), "@)
    }
}

fn show_listener(listener: &GatewayListener) -> (r: String)
    ensures
        r@ == "  Listener(name: "@ + listener.name@ + " port: "@ + decimal(listener.port as int)
            + "), "@,
{
    let number = decimal_text(listener.port as i64);
    let start = cat3("  Listener(name: ", listener.name.as_str(), " port: ");
    cat3(start.as_str(), number.as_str(), "), ")
}

impl RouteToListenersMapping {
    /// A route, with the listeners that it is attached to.
    pub fn new(route: Route, listeners: Vec<GatewayListener>) -> (r: Self)
        ensures
            r.route == route,
            r.listeners == listeners,
    {
        RouteToListenersMapping { route, listeners }
    }

    /// The text that the mapping is shown by.
    pub fn to_text(&self) -> (r: String)
        ensures
            r@ == "route "@ + self.deep_view().route.config.resource_key.name + " -> ["@
                + shown_listeners(self.deep_view().listeners) + "]"@,
    {
        let ghost all = self.listeners.deep_view();
        let mut shown = String::new();
        let mut i: usize = 0;
        proof {
            reveal_strlit("");
        }
        assert(shown@ =~= shown_listeners(all.take(0)));
        while i < self.listeners.len()
            invariant
                i <= self.listeners.len(),
                all == self.listeners.deep_view(),
                shown@ == shown_listeners(all.take(i as int)),
            decreases self.listeners.len() - i,
        {
            let more = show_listener(&self.listeners[i]);
            assert(all[i as int] == self.listeners[i as int].deep_view());
            assert(all.take(i + 1).drop_last() =~= all.take(i as int));
            shown = cat(shown.as_str(), more.as_str());
            i = i + 1;
        }
        assert(all.take(i as int) =~= all);
        let start = cat3("route ", self.route.name(), " -> [");
        cat3(start.as_str(), shown.as_str(), "]")
    }
}

/// The routes by the names of listeners after one route more at a listener. A route that is there
/// already stays.
pub open spec fn with_attached(
    attached: Seq<(Seq<char>, Seq<RouteView>)>,
    listener: Seq<char>,
    route: RouteView,
) -> Seq<(Seq<char>, Seq<RouteView>)> {
    let before = if keys(attached).contains(listener) {
        table(attached)[listener]
    } else {
        Seq::empty()
    };
    put::<String, Seq<RouteView>>(attached, listener, with_new_route(before, route))
}

/// The routes by the names of listeners after a route that is attached to listeners.
pub open spec fn with_mapping(
    attached: Seq<(Seq<char>, Seq<RouteView>)>,
    listeners: Seq<GatewayListenerView>,
    route: RouteView,
) -> Seq<(Seq<char>, Seq<RouteView>)>
    decreases listeners.len(),
{
    if listeners.len() == 0 {
        attached
    } else {
        with_attached(
            with_mapping(attached, listeners.drop_last(), route),
            listeners.last().name,
            route,
        )
    }
}

/// The routes by the names of the listeners that they are attached to.
pub open spec fn attached_routes(mappings: Seq<RouteToListenersMappingView>) -> Seq<
    (Seq<char>, Seq<RouteView>),
>
    decreases mappings.len(),
{
    if mappings.len() == 0 {
        Seq::empty()
    } else {
        with_mapping(
            attached_routes(mappings.drop_last()),
            mappings.last().listeners,
            mappings.last().route,
        )
    }
}

fn attach(attached: &mut OrderedMap<String, RouteSet>, listener: &String, route: &Route)
    ensures
        final(attached).deep_view() == with_attached(
            old(attached).deep_view(),
            listener@,
            route.deep_view(),
        ),
{
    let mut routes = match attached.get(listener) {
        Some(routes) => routes.dup(),
        None => RouteSet::new(),
    };
    routes.insert(route.dup());
    attached.insert(listener.dup(), routes);
}

/// The routes by the names of the listeners that they are attached to.
pub fn calculate_attached_routes(mapped_routes: &Vec<RouteToListenersMapping>) -> (r: OrderedMap<
    String,
    RouteSet,
>)
    ensures
        r.deep_view() == attached_routes(mapped_routes.deep_view()),
{
    let ghost all = mapped_routes.deep_view();
    let mut attached: OrderedMap<String, RouteSet> = OrderedMap::new();
    let mut i: usize = 0;
    assert(all.take(0) =~= Seq::<RouteToListenersMappingView>::empty());
    while i < mapped_routes.len()
        invariant
            i <= mapped_routes.len(),
            mapped_routes.deep_view() == all,
            attached.deep_view() == attached_routes(all.take(i as int)),
        decreases mapped_routes.len() - i,
    {
        let mapping = &mapped_routes[i];
        let ghost before = attached.deep_view();
        let ghost listeners = mapping.listeners.deep_view();
        let ghost route = mapping.route.deep_view();
        assert(all[i as int] == mapping.deep_view());
        assert(all.take(i + 1).drop_last() =~= all.take(i as int));
        let mut j: usize = 0;
        assert(listeners.take(0) =~= Seq::<GatewayListenerView>::empty());
        while j < mapping.listeners.len()
            invariant
                j <= mapping.listeners.len(),
                listeners == mapping.listeners.deep_view(),
                route == mapping.route.deep_view(),
                attached.deep_view() == with_mapping(before, listeners.take(j as int), route),
            decreases mapping.listeners.len() - j,
        {
            attach(&mut attached, &mapping.listeners[j].name, &mapping.route);
            assert(listeners[j as int] == mapping.listeners[j as int].deep_view());
            assert(listeners.take(j + 1).drop_last() =~= listeners.take(j as int));
            j = j + 1;
        }
        assert(listeners.take(j as int) =~= listeners);
        i = i + 1;
    }
    assert(all.take(i as int) =~= all);
    attached
}

/// The name of the finalizer of a gateway class that has gateways.
pub const GATEWAY_CLASS_FINALIZER_NAME: &'static str =
    "gateway-exists-finalizer.gateway.networking.k8s.io";

/// A finalizer that an object is given.
#[derive(Debug, PartialEq, Eq)]
pub struct FinalizerContext {
    pub resource_key: ResourceKey,
    pub controller_name: String,
    pub finalizer_name: String,
}

/// What a [`FinalizerContext`] holds.
#[verifier::ext_equal]
pub struct FinalizerContextView {
    pub resource_key: ResourceKeyView,
    pub controller_name: Seq<char>,
    pub finalizer_name: Seq<char>,
}

impl DeepView for FinalizerContext {
    type V = FinalizerContextView;

    open spec fn deep_view(&self) -> FinalizerContextView {
        FinalizerContextView {
            resource_key: self.resource_key.deep_view(),
            controller_name: self.controller_name.deep_view(),
            finalizer_name: self.finalizer_name.deep_view(),
        }
    }
}

impl Model for FinalizerContext {
    fn dup(&self) -> (r: Self) {
        FinalizerContext {
            resource_key: self.resource_key.dup(),
            controller_name: self.controller_name.dup(),
            finalizer_name: self.finalizer_name.dup(),
        }
    }

    fn same(&self, other: &Self) -> (r: bool) {
        self.resource_key.same(&other.resource_key)
            && self.controller_name.same(&other.controller_name)
            && self.finalizer_name.same(&other.finalizer_name)
    }
}

/// The finalizer that a gateway is given: it is named like the controller.
pub fn add_finalizer(gateway_id: &ResourceKey, controller_name: &str) -> (r: FinalizerContext)
    ensures
        r.deep_view() == (FinalizerContextView {
            resource_key: gateway_id.deep_view(),
            controller_name: controller_name@,
            finalizer_name: controller_name@,
        }),
{
    FinalizerContext {
        resource_key: gateway_id.dup(),
        controller_name: controller_name.to_owned(),
        finalizer_name: controller_name.to_owned(),
    }
}

/// The finalizer that a gateway class is given.
pub fn add_finalizer_to_gateway_class(gateway_class_name: &str, controller_name: &str) -> (r:
    FinalizerContext)
    ensures
        r.deep_view() == (FinalizerContextView {
            resource_key: ResourceKeyView {
                group: DEFAULT_GROUP_NAME@,
                namespace: DEFAULT_NAMESPACE_NAME@,
                name: gateway_class_name@,
                kind: DEFAULT_KIND_NAME@,
            },
            controller_name: controller_name@,
            finalizer_name: GATEWAY_CLASS_FINALIZER_NAME@,
        }),
{
    FinalizerContext {
        resource_key: ResourceKey::new(gateway_class_name),
        controller_name: controller_name.to_owned(),
        finalizer_name: GATEWAY_CLASS_FINALIZER_NAME.to_owned(),
    }
}

/// A change of a gateway is shown by its name, its namespace and the number of its listeners.
pub proof fn law_change_is_shown(context: ChangedContextView, detail: Seq<char>)
    ensures
        context.gateway.shown() == "Gateway "@ + context.gateway.resource_key.name + "."@
            + context.gateway.resource_key.namespace + " listeners = "@ + decimal(
            context.gateway.listeners.len() as int,
        ) + " "@,
        BackendGatewayEventView::Changed(context).shown(detail) == "GatewayEvent::GatewayChanged "@
            + context.gateway.shown(),
        BackendGatewayEventView::Deleted(
            DeletedContextView { gateway: context.gateway },
        ).shown(detail) == "GatewayEvent::GatewayDeleted gateway "@ + detail,
{
}

/// A mapping shows each of its listeners, by its name and its port, in their order.
pub proof fn law_listeners_are_shown(
    listeners: Seq<GatewayListenerView>,
    listener: GatewayListenerView,
)
    ensures
        shown_listeners(Seq::empty()).len() == 0,
        shown_listeners(listeners.push(listener)) == shown_listeners(listeners) + (
        "  Listener(name: "@ + listener.name + " port: "@ + decimal(listener.port as int) + "), "@),
{
    assert(listeners.push(listener).drop_last() =~= listeners);
}

/// A route that is mapped to a listener is attached to it under the name of the listener: there is a
/// route with its key. The names are in their order, and so are the routes of each.
pub proof fn law_mapped_routes_are_attached(mappings: Seq<RouteToListenersMappingView>)
    ensures
        increasing::<String>(keys(attached_routes(mappings))),
        forall|name: Seq<char>| #[trigger]
            table(attached_routes(mappings)).contains_key(name) ==> increasing::<ResourceKey>(
                route_keys(table(attached_routes(mappings))[name]),
            ),
        forall|m: int, l: int|
            0 <= m < mappings.len() && 0 <= l < mappings[m].listeners.len() ==> {
                let name = (#[trigger] mappings[m].listeners[l]).name;
                &&& table(attached_routes(mappings)).contains_key(name)
                &&& route_keys(table(attached_routes(mappings))[name]).contains(
                    mappings[m].route.config.resource_key,
                )
            },
    decreases mappings.len(),
{
    if mappings.len() > 0 {
        let shorter = mappings.drop_last();
        let last = mappings.last();
        let before = attached_routes(shorter);
        let after = attached_routes(mappings);
        law_mapped_routes_are_attached(shorter);
        mapping_attaches(before, last.listeners, last.route);
        assert forall|m: int, l: int|
            0 <= m < mappings.len() && 0 <= l < mappings[m].listeners.len() implies {
            let name = (#[trigger] mappings[m].listeners[l]).name;
            &&& table(after).contains_key(name)
            &&& route_keys(table(after)[name]).contains(mappings[m].route.config.resource_key)
        } by {
            if m < shorter.len() {
                assert(shorter[m] == mappings[m]);
                let name = shorter[m].listeners[l].name;
                assert(table(before).contains_key(name));
                assert(route_keys(table(before)[name]).contains(
                    shorter[m].route.config.resource_key,
                ));
            } else {
                assert(last.listeners[l] == mappings[m].listeners[l]);
            }
        }
    }
}

proof fn mapping_attaches(
    attached: Seq<(Seq<char>, Seq<RouteView>)>,
    listeners: Seq<GatewayListenerView>,
    route: RouteView,
)
    requires
        increasing::<String>(keys(attached)),
        forall|name: Seq<char>| #[trigger]
            table(attached).contains_key(name) ==> increasing::<ResourceKey>(
                route_keys(table(attached)[name]),
            ),
    ensures
        increasing::<String>(keys(with_mapping(attached, listeners, route))),
        forall|name: Seq<char>| #[trigger]
            table(with_mapping(attached, listeners, route)).contains_key(name)
                ==> increasing::<ResourceKey>(
                route_keys(table(with_mapping(attached, listeners, route))[name]),
            ),
        forall|name: Seq<char>, key: ResourceKeyView|
            table(attached).contains_key(name) && #[trigger] route_keys(
                table(attached)[name],
            ).contains(key) ==> table(with_mapping(attached, listeners, route)).contains_key(name)
                && route_keys(table(with_mapping(attached, listeners, route))[name]).contains(key),
        forall|l: int|
            0 <= l < listeners.len() ==> {
                let name = (#[trigger] listeners[l]).name;
                &&& table(with_mapping(attached, listeners, route)).contains_key(name)
                &&& route_keys(table(with_mapping(attached, listeners, route))[name]).contains(
                    route.config.resource_key,
                )
            },
    decreases listeners.len(),
{
    if listeners.len() > 0 {
        let shorter = listeners.drop_last();
        let name = listeners.last().name;
        let between = with_mapping(attached, shorter, route);
        let after = with_mapping(attached, listeners, route);
        mapping_attaches(attached, shorter, route);
        assert(keys(between).contains(name) == table(between).contains_key(name));
        let held = if keys(between).contains(name) {
            table(between)[name]
        } else {
            Seq::empty()
        };
        assert(increasing::<ResourceKey>(route_keys(held)));
        let next = with_new_route(held, route);
        law_with_new_route(held, route);
        law_put::<String, Seq<RouteView>>(between, name, next);
        assert forall|key: ResourceKeyView| route_keys(held).contains(key) implies route_keys(
            next,
        ).contains(key) by {
            let i = choose|i: int| 0 <= i < held.len() && route_keys(held)[i] == key;
            assert(held.contains(held[i]));
            assert(next.contains(held[i]));
            let k = choose|k: int| 0 <= k < next.len() && next[k] == held[i];
            assert(route_keys(next)[k] == key);
        }
        assert(route_keys(next).contains(route.config.resource_key)) by {
            let key = route.config.resource_key;
            if exists|i: int| 0 <= i < held.len() && (#[trigger] held[i]).config.resource_key == key {
                let i = choose|i: int|
                    0 <= i < held.len() && (#[trigger] held[i]).config.resource_key == key;
                assert(route_keys(held)[i] == key);
                assert(route_keys(held).contains(key));
            } else {
                assert(next.contains(route));
                let k = choose|k: int| 0 <= k < next.len() && next[k] == route;
                assert(route_keys(next)[k] == key);
            }
        }
        assert forall|l: int| 0 <= l < listeners.len() implies {
            let name = (#[trigger] listeners[l]).name;
            &&& table(after).contains_key(name)
            &&& route_keys(table(after)[name]).contains(route.config.resource_key)
        } by {
            if l < shorter.len() {
                assert(shorter[l] == listeners[l]);
            }
        }
        assert forall|other: Seq<char>, key: ResourceKeyView|
            table(attached).contains_key(other) && #[trigger] route_keys(
                table(attached)[other],
            ).contains(key) implies table(after).contains_key(other) && route_keys(
            table(after)[other],
        ).contains(key) by {
            assert(route_keys(table(between)[other]).contains(key));
        }
    }
}

} // verus!

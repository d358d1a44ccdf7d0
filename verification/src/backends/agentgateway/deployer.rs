//! How a gateway is deployed on Agentgateway, and what is done where it changes or is deleted.
use vstd::prelude::*;
use crate::backends::agentgateway::resource_generator::{
    ResourceGenerator,
    bind_of,
    bound,
    law_listeners_are_bound,
    told_listener,
};
use crate::backends::agentgateway::resources::{
    Address,
    AddressType,
    AddressTypeView,
    AddressView,
    Backend,
    BackendView,
    Bind,
    BindView,
    Kind,
    KindView,
    Listener,
    ListenerView,
    Policy,
    PolicyView,
    Resource,
    ResourceView,
    Route,
    RouteView,
    Service,
    ServiceView,
};
use crate::backends::agentgateway::server::{ServerAction, ServerActionView};
use crate::backends::deployment::{
    ConfigMapPlan,
    ConfigMapPlanView,
    ConfigMapVolume,
    ConfigMapVolumeView,
    DeployedService,
    DeploymentPlan,
    DeploymentPlanView,
    FollowUp,
    FollowUpView,
    KeyToPath,
    KeyToPathView,
    Volume,
    VolumeView,
    config_map_names,
    create_container_ports,
    create_labels,
    create_service,
    create_service_account,
    follows,
    fresh_version,
    one_entry,
    update_address_with_polling,
    versioned,
};
use crate::backends::envoy::deployer::DeployPlan;
use crate::backends::templates::{
    TemplateError,
    Templates,
    TeraBootstrap,
    TeraBootstrapView,
    bootstrap_rendered,
    renders_as,
};
use crate::common::address::{ControlPlaneConfig, ControlPlaneConfigView};
use crate::common::contexts::{
    BackendGatewayResponse,
    BackendGatewayResponseView,
    ChangedContext,
};
use crate::common::gateway::{Gateway, GatewayView};
use crate::common::resource_key::{ResourceKey, ResourceKeyView};
use crate::lists::{append_list, join_list, joined, joined_contains, map_list, no_items, one_item};
use crate::model::Model;
use crate::ordered::{keys, table_of_entry, values};

verus! {

/// How the resources of a gateway changed.
#[derive(Debug, PartialEq, Eq)]
pub enum ResourceChange {
    UpdateBindings { gateway_id: ResourceKey, resources: Vec<Resource>, ack_version: u32 },
    UpdateListeners { gateway_id: ResourceKey, resources: Vec<Resource>, ack_version: u32 },
    UpdateRoutes { gateway_id: ResourceKey, resources: Vec<Resource>, ack_version: u32 },
    DeleteRoutes { gateway_id: ResourceKey, resources: Vec<Resource>, ack_version: u32 },
    DeleteListeners { gateway_id: ResourceKey, resources: Vec<Resource>, ack_version: u32 },
    DeleteBindings { gateway_id: ResourceKey, resources: Vec<Resource>, ack_version: u32 },
}

/// What a [`ResourceChange`] holds.
#[verifier::ext_equal]
pub enum ResourceChangeView {
    UpdateBindings { gateway_id: ResourceKeyView, resources: Seq<ResourceView>, ack_version: u32 },
    UpdateListeners { gateway_id: ResourceKeyView, resources: Seq<ResourceView>, ack_version: u32 },
    UpdateRoutes { gateway_id: ResourceKeyView, resources: Seq<ResourceView>, ack_version: u32 },
    DeleteRoutes { gateway_id: ResourceKeyView, resources: Seq<ResourceView>, ack_version: u32 },
    DeleteListeners { gateway_id: ResourceKeyView, resources: Seq<ResourceView>, ack_version: u32 },
    DeleteBindings { gateway_id: ResourceKeyView, resources: Seq<ResourceView>, ack_version: u32 },
}

impl DeepView for ResourceChange {
    type V = ResourceChangeView;

    open spec fn deep_view(&self) -> ResourceChangeView {
        match self {
            ResourceChange::UpdateBindings { gateway_id, resources, ack_version } => ResourceChangeView::UpdateBindings { gateway_id: gateway_id.deep_view(), resources: resources.deep_view(), ack_version: ack_version.deep_view() },
            ResourceChange::UpdateListeners { gateway_id, resources, ack_version } => ResourceChangeView::UpdateListeners { gateway_id: gateway_id.deep_view(), resources: resources.deep_view(), ack_version: ack_version.deep_view() },
            ResourceChange::UpdateRoutes { gateway_id, resources, ack_version } => ResourceChangeView::UpdateRoutes { gateway_id: gateway_id.deep_view(), resources: resources.deep_view(), ack_version: ack_version.deep_view() },
            ResourceChange::DeleteRoutes { gateway_id, resources, ack_version } => ResourceChangeView::DeleteRoutes { gateway_id: gateway_id.deep_view(), resources: resources.deep_view(), ack_version: ack_version.deep_view() },
            ResourceChange::DeleteListeners { gateway_id, resources, ack_version } => ResourceChangeView::DeleteListeners { gateway_id: gateway_id.deep_view(), resources: resources.deep_view(), ack_version: ack_version.deep_view() },
            ResourceChange::DeleteBindings { gateway_id, resources, ack_version } => ResourceChangeView::DeleteBindings { gateway_id: gateway_id.deep_view(), resources: resources.deep_view(), ack_version: ack_version.deep_view() },
        }
    }
}

impl Model for ResourceChange {
    fn dup(&self) -> (r: Self) {
        match self {
            ResourceChange::UpdateBindings { gateway_id, resources, ack_version } => ResourceChange::UpdateBindings { gateway_id: gateway_id.dup(), resources: resources.dup(), ack_version: ack_version.dup() },
            ResourceChange::UpdateListeners { gateway_id, resources, ack_version } => ResourceChange::UpdateListeners { gateway_id: gateway_id.dup(), resources: resources.dup(), ack_version: ack_version.dup() },
            ResourceChange::UpdateRoutes { gateway_id, resources, ack_version } => ResourceChange::UpdateRoutes { gateway_id: gateway_id.dup(), resources: resources.dup(), ack_version: ack_version.dup() },
            ResourceChange::DeleteRoutes { gateway_id, resources, ack_version } => ResourceChange::DeleteRoutes { gateway_id: gateway_id.dup(), resources: resources.dup(), ack_version: ack_version.dup() },
            ResourceChange::DeleteListeners { gateway_id, resources, ack_version } => ResourceChange::DeleteListeners { gateway_id: gateway_id.dup(), resources: resources.dup(), ack_version: ack_version.dup() },
            ResourceChange::DeleteBindings { gateway_id, resources, ack_version } => ResourceChange::DeleteBindings { gateway_id: gateway_id.dup(), resources: resources.dup(), ack_version: ack_version.dup() },
        }
    }

    fn same(&self, other: &Self) -> (r: bool) {
        match (self, other) {
            (ResourceChange::UpdateBindings { gateway_id, resources, ack_version }, ResourceChange::UpdateBindings { gateway_id: gateway_id_, resources: resources_, ack_version: ack_version_ }) => gateway_id.same(gateway_id_) && resources.same(resources_) && ack_version.same(ack_version_),
            (ResourceChange::UpdateListeners { gateway_id, resources, ack_version }, ResourceChange::UpdateListeners { gateway_id: gateway_id_, resources: resources_, ack_version: ack_version_ }) => gateway_id.same(gateway_id_) && resources.same(resources_) && ack_version.same(ack_version_),
            (ResourceChange::UpdateRoutes { gateway_id, resources, ack_version }, ResourceChange::UpdateRoutes { gateway_id: gateway_id_, resources: resources_, ack_version: ack_version_ }) => gateway_id.same(gateway_id_) && resources.same(resources_) && ack_version.same(ack_version_),
            (ResourceChange::DeleteRoutes { gateway_id, resources, ack_version }, ResourceChange::DeleteRoutes { gateway_id: gateway_id_, resources: resources_, ack_version: ack_version_ }) => gateway_id.same(gateway_id_) && resources.same(resources_) && ack_version.same(ack_version_),
            (ResourceChange::DeleteListeners { gateway_id, resources, ack_version }, ResourceChange::DeleteListeners { gateway_id: gateway_id_, resources: resources_, ack_version: ack_version_ }) => gateway_id.same(gateway_id_) && resources.same(resources_) && ack_version.same(ack_version_),
            (ResourceChange::DeleteBindings { gateway_id, resources, ack_version }, ResourceChange::DeleteBindings { gateway_id: gateway_id_, resources: resources_, ack_version: ack_version_ }) => gateway_id.same(gateway_id_) && resources.same(resources_) && ack_version.same(ack_version_),
            _ => false,
        }
    }
}

/// The version that resources are told of with.
pub const ACK_VERSION: u32 = 1;

/// A port as a resource.
pub open spec fn bind_resource() -> spec_fn(((Seq<char>, u32), Seq<ListenerView>)) -> ResourceView {
    |entry: ((Seq<char>, u32), Seq<ListenerView>)|
        ResourceView { kind: Some(KindView::Bind(BindView { key: entry.0.0, port: entry.0.1 })) }
}

/// A listener as a resource.
pub open spec fn listener_resource() -> spec_fn(ListenerView) -> ResourceView {
    |listener: ListenerView| ResourceView { kind: Some(KindView::Listener(listener)) }
}

/// The listeners at a port as resources.
pub open spec fn listener_resources() -> spec_fn(((Seq<char>, u32), Seq<ListenerView>)) -> Seq<
    ResourceView,
> {
    |entry: ((Seq<char>, u32), Seq<ListenerView>)| entry.1.map_values(listener_resource())
}

/// A route as a resource.
pub open spec fn route_resource() -> spec_fn(RouteView) -> ResourceView {
    |route: RouteView| ResourceView { kind: Some(KindView::Route(route)) }
}

/// A backend as a resource.
pub open spec fn backend_resource() -> spec_fn(BackendView) -> ResourceView {
    |backend: BackendView| ResourceView { kind: Some(KindView::Backend(backend)) }
}

/// A policy as a resource.
pub open spec fn policy_resource() -> spec_fn(PolicyView) -> ResourceView {
    |policy: PolicyView| ResourceView { kind: Some(KindView::Policy(policy)) }
}

/// A service as an address.
pub open spec fn service_address() -> spec_fn(ServiceView) -> AddressView {
    |service: ServiceView| AddressView { address_type: Some(AddressTypeView::Service(service)) }
}

impl GatewayView {
    /// All resources: the ports, the listeners, the routes, the backends and the policies.
    pub open spec fn agent_resources(self) -> Seq<ResourceView> {
        self.agent_binding_resources() + self.agent_listener_resources()
            + self.agent_route_resources() + self.agent_backends().map_values(backend_resource())
            + self.agent_policies().map_values(policy_resource())
    }

    /// The listeners by their ports.
    pub open spec fn agent_bound(self) -> Seq<((Seq<char>, u32), Seq<ListenerView>)> {
        bound(self.resource_key.name, values(self.listeners))
    }

    /// The ports, as resources.
    pub open spec fn agent_binding_resources(self) -> Seq<ResourceView> {
        self.agent_bound().map_values(bind_resource())
    }

    /// The listeners, port by port, as resources.
    pub open spec fn agent_listener_resources(self) -> Seq<ResourceView> {
        joined(self.agent_bound(), listener_resources())
    }

    /// The routes, as resources.
    pub open spec fn agent_route_resources(self) -> Seq<ResourceView> {
        self.agent_routes().map_values(route_resource())
    }

    /// What is told of a gateway that was deployed: the ports, the listeners and the routes.
    pub open spec fn agent_updates(self) -> Seq<ResourceChangeView> {
        seq![
            ResourceChangeView::UpdateBindings {
                gateway_id: self.resource_key,
                resources: self.agent_binding_resources(),
                ack_version: ACK_VERSION,
            },
            ResourceChangeView::UpdateListeners {
                gateway_id: self.resource_key,
                resources: self.agent_listener_resources(),
                ack_version: ACK_VERSION,
            },
            ResourceChangeView::UpdateRoutes {
                gateway_id: self.resource_key,
                resources: self.agent_route_resources(),
                ack_version: ACK_VERSION,
            },
        ]
    }

    /// What is told of a gateway that was deleted: the routes, the listeners and the ports.
    pub open spec fn agent_deletes(self) -> Seq<ResourceChangeView> {
        seq![
            ResourceChangeView::DeleteRoutes {
                gateway_id: self.resource_key,
                resources: self.agent_route_resources(),
                ack_version: ACK_VERSION,
            },
            ResourceChangeView::DeleteListeners {
                gateway_id: self.resource_key,
                resources: self.agent_listener_resources(),
                ack_version: ACK_VERSION,
            },
            ResourceChangeView::DeleteBindings {
                gateway_id: self.resource_key,
                resources: self.agent_binding_resources(),
                ack_version: ACK_VERSION,
            },
        ]
    }
}

fn make_bind(entry: &((String, u32), Vec<Listener>)) -> (r: Resource)
    ensures
        r.deep_view() == bind_resource()(entry.deep_view()),
{
    Resource { kind: Some(Kind::Bind(Bind { key: entry.0.0.dup(), port: entry.0.1 })) }
}

fn make_listener(listener: &Listener) -> (r: Resource)
    ensures
        r.deep_view() == listener_resource()(listener.deep_view()),
{
    Resource { kind: Some(Kind::Listener(listener.dup())) }
}

fn make_listeners(entry: &((String, u32), Vec<Listener>)) -> (r: Vec<Resource>)
    ensures
        r.deep_view() == listener_resources()(entry.deep_view()),
{
    map_list(&entry.1, make_listener, Ghost(listener_resource()))
}

fn make_route(route: &Route) -> (r: Resource)
    ensures
        r.deep_view() == route_resource()(route.deep_view()),
{
    Resource { kind: Some(Kind::Route(route.dup())) }
}

/// The ports, the listeners and the routes of a gateway, as resources.
pub fn create_resources(gateway: &Gateway) -> (r: (Vec<Resource>, Vec<Resource>, Vec<Resource>))
    ensures
        r.0.deep_view() == gateway.deep_view().agent_binding_resources(),
        r.1.deep_view() == gateway.deep_view().agent_listener_resources(),
        r.2.deep_view() == gateway.deep_view().agent_route_resources(),
{
    let generator = ResourceGenerator::new(gateway);
    let bindings_and_listeners = generator.generate_bindings_and_listeners();
    let entries = bindings_and_listeners.entries();
    let bindings = map_list(entries, make_bind, Ghost(bind_resource()));
    let listeners = join_list(entries, make_listeners, Ghost(listener_resources()));
    let routes = generator.generate_routes();
    (bindings, listeners, map_list(&routes, make_route, Ghost(route_resource())))
}

fn make_backend(backend: &Backend) -> (r: Resource)
    ensures
        r.deep_view() == backend_resource()(backend.deep_view()),
{
    Resource { kind: Some(Kind::Backend(backend.dup())) }
}

fn make_policy(policy: &Policy) -> (r: Resource)
    ensures
        r.deep_view() == policy_resource()(policy.deep_view()),
{
    Resource { kind: Some(Kind::Policy(policy.dup())) }
}

fn make_address(service: &Service) -> (r: Address)
    ensures
        r.deep_view() == service_address()(service.deep_view()),
{
    Address { address_type: Some(AddressType::Service(service.dup())) }
}

impl GatewayView {
    /// What the discovery service is told of the gateway: all its resources, and its services as
    /// workloads.
    pub open spec fn server_actions(self) -> (ServerActionView, ServerActionView) {
        (
            ServerActionView::UpdateResources {
                gateway_id: self.resource_key,
                resources: self.agent_resources(),
            },
            ServerActionView::UpdateWorkloads {
                gateway_id: self.resource_key,
                workloads: self.agent_services().map_values(service_address()),
            },
        )
    }
}

/// What the discovery service is told of a gateway: all its resources, and its services as workloads.
pub fn server_updates(gateway: &Gateway) -> (r: (ServerAction, ServerAction))
    ensures
        r.deep_view() == gateway.deep_view().server_actions(),
{
    let (bindings, listeners, routes) = create_resources(gateway);
    let generator = ResourceGenerator::new(gateway);
    let (_, backends, policies, services) = generator.generate_routes_and_backends_and_policies();
    let told = append_list(append_list(bindings, listeners), routes);
    let told = append_list(told, map_list(&backends, make_backend, Ghost(backend_resource())));
    let told = append_list(told, map_list(&policies, make_policy, Ghost(policy_resource())));
    let workloads = map_list(&services, make_address, Ghost(service_address()));
    (
        ServerAction::UpdateResources { gateway_id: gateway.key().dup(), resources: told },
        ServerAction::UpdateWorkloads { gateway_id: gateway.key().dup(), workloads },
    )
}

/// What is told of a gateway that was deployed.
pub fn updates(gateway: &Gateway) -> (r: Vec<ResourceChange>)
    ensures
        r.deep_view() == gateway.deep_view().agent_updates(),
{
    let (bindings, listeners, routes) = create_resources(gateway);
    let mut out: Vec<ResourceChange> = Vec::new();
    out.push(
        ResourceChange::UpdateBindings {
            gateway_id: gateway.key().dup(),
            resources: bindings,
            ack_version: ACK_VERSION,
        },
    );
    out.push(
        ResourceChange::UpdateListeners {
            gateway_id: gateway.key().dup(),
            resources: listeners,
            ack_version: ACK_VERSION,
        },
    );
    out.push(
        ResourceChange::UpdateRoutes {
            gateway_id: gateway.key().dup(),
            resources: routes,
            ack_version: ACK_VERSION,
        },
    );
    assert(out.deep_view() =~= gateway.deep_view().agent_updates());
    out
}

/// What is told of a gateway that was deleted.
pub fn deletes(gateway: &Gateway) -> (r: Vec<ResourceChange>)
    ensures
        r.deep_view() == gateway.deep_view().agent_deletes(),
{
    let (bindings, listeners, routes) = create_resources(gateway);
    let mut out: Vec<ResourceChange> = Vec::new();
    out.push(
        ResourceChange::DeleteRoutes {
            gateway_id: gateway.key().dup(),
            resources: routes,
            ack_version: ACK_VERSION,
        },
    );
    out.push(
        ResourceChange::DeleteListeners {
            gateway_id: gateway.key().dup(),
            resources: listeners,
            ack_version: ACK_VERSION,
        },
    );
    out.push(
        ResourceChange::DeleteBindings {
            gateway_id: gateway.key().dup(),
            resources: bindings,
            ack_version: ACK_VERSION,
        },
    );
    assert(out.deep_view() =~= gateway.deep_view().agent_deletes());
    out
}

/// What is done once a gateway was deployed, or was not: its resources are told of, to the discovery
/// service too, and its addresses are dealt with, or it is answered as it was.
pub fn deployed(context: ChangedContext, service: Option<DeployedService>) -> (r: (
    Vec<ResourceChange>,
    Option<(ServerAction, ServerAction)>,
    FollowUp,
))
    ensures
        match service {
            Some(service) => {
                &&& r.0.deep_view() == context.deep_view().gateway.agent_updates()
                &&& r.1.deep_view() == Some(context.deep_view().gateway.server_actions())
                &&& follows(r.2.deep_view(), context.deep_view(), service.deep_view())
            },
            None => {
                &&& r.0.deep_view().len() == 0
                &&& r.1 is None
                &&& r.2.deep_view() == FollowUpView::Respond(
                    BackendGatewayResponseView::Processed(context.deep_view().gateway),
                )
            },
        },
{
    match service {
        Some(service) => {
            let told = updates(&context.gateway);
            let actions = server_updates(&context.gateway);
            (told, Some(actions), update_address_with_polling(context, &service))
        },
        None => (
            no_items(),
            None,
            FollowUp::Respond(BackendGatewayResponse::Processed(context.gateway)),
        ),
    }
}

/// What is done once a gateway was deleted: its resources are told of, and it is answered to whom
/// deals with gateways, and to whom asked.
pub fn deleted(gateway: &Gateway) -> (r: (
    Vec<ResourceChange>,
    BackendGatewayResponse,
    BackendGatewayResponse,
))
    ensures
        r.0.deep_view() == gateway.deep_view().agent_deletes(),
        r.1.deep_view() == BackendGatewayResponseView::Processed(gateway.deep_view()),
        r.2.deep_view() == BackendGatewayResponseView::Deleted(Seq::empty()),
{
    (
        deletes(gateway),
        BackendGatewayResponse::Processed(gateway.dup()),
        BackendGatewayResponse::Deleted(no_items()),
    )
}

/// The template of what Agentgateway starts with.
pub const BOOTSTRAP_TEMPLATE: &'static str = "agent-gateway-bootstrap-dynamic.yaml.tera";

/// The file of what Agentgateway starts with.
pub const BOOTSTRAP_FILE: &'static str = "agentgateway-bootstrap.yaml";

/// What Agentgateway starts with: where the control plane listens.
pub open spec fn bootstrap_of(config: ControlPlaneConfigView) -> TeraBootstrapView {
    TeraBootstrapView {
        secrets: None,
        control_plane_host: config.listening_socket.address,
        control_plane_port: config.listening_socket.port,
    }
}

/// Renders what Agentgateway starts with. Where there is no text, the template is named.
pub fn bootstrap_content(templates: &Templates, config: &ControlPlaneConfig) -> (r: Result<
    String,
    TemplateError,
>)
    ensures
        renders_as(
            r,
            BOOTSTRAP_TEMPLATE@,
            bootstrap_rendered(
                templates.sources(),
                BOOTSTRAP_TEMPLATE@,
                bootstrap_of(config.deep_view()),
            ),
        ),
        r is Ok ==> templates.sources().contains_key(BOOTSTRAP_TEMPLATE@),
{
    let bootstrap = TeraBootstrap {
        secrets: None,
        control_plane_host: config.listening_socket.address.dup(),
        control_plane_port: config.listening_socket.port,
    };
    templates.render_bootstrap(BOOTSTRAP_TEMPLATE, &bootstrap)
}

/// The volume of what Agentgateway starts with.
pub open spec fn config_volume(gateway: GatewayView) -> VolumeView {
    VolumeView {
        name: "agentgateway-config"@,
        config_map: Some(
            ConfigMapVolumeView {
                name: gateway.resource_key.name + "-bootstrap-cm"@,
                items: Some(seq![KeyToPathView { key: BOOTSTRAP_FILE@, path: BOOTSTRAP_FILE@ }]),
            },
        ),
        projected: None,
    }
}

/// Whether a deployment is that of a gateway. Its version is random.
pub open spec fn deploys(plan: DeploymentPlanView, gateway: GatewayView) -> bool {
    &&& versioned(plan.annotations)
    &&& plan == (DeploymentPlanView {
        name: gateway.resource_key.name,
        namespace: gateway.resource_key.namespace,
        annotations: plan.annotations,
        labels: gateway.app_label(),
        replicas: 1,
        ports: gateway.container_ports(),
        volumes: seq![config_volume(gateway)],
    })
}

/// The deployment of a gateway.
pub fn create_deployment(gateway: &Gateway) -> (r: DeploymentPlan)
    ensures
        deploys(r.deep_view(), gateway.deep_view()),
{
    let mut labels = create_labels(gateway);
    labels.insert("app".to_owned(), gateway.name().to_owned());
    assert(labels.deep_view() =~= gateway.deep_view().app_label());
    let (_, name) = config_map_names(gateway);
    let items = one_item(
        KeyToPath { key: BOOTSTRAP_FILE.to_owned(), path: BOOTSTRAP_FILE.to_owned() },
    );
    assert(items.deep_view() =~= seq![
        KeyToPathView { key: BOOTSTRAP_FILE@, path: BOOTSTRAP_FILE@ },
    ]);
    let volumes = one_item(
        Volume {
            name: "agentgateway-config".to_owned(),
            config_map: Some(ConfigMapVolume { name, items: Some(items) }),
            projected: None,
        },
    );
    assert(volumes.deep_view() =~= seq![config_volume(gateway.deep_view())]);
    DeploymentPlan {
        name: gateway.name().to_owned(),
        namespace: gateway.namespace().to_owned(),
        annotations: fresh_version(),
        labels,
        replicas: 1,
        ports: create_container_ports(gateway),
        volumes,
    }
}

/// Whether a config map holds what Agentgateway starts with. Its version is random.
pub open spec fn holds_bootstrap(
    plan: ConfigMapPlanView,
    name: Seq<char>,
    gateway: GatewayView,
    content: Seq<char>,
) -> bool {
    &&& versioned(plan.annotations)
    &&& plan == (ConfigMapPlanView {
        name,
        namespace: gateway.resource_key.namespace,
        annotations: plan.annotations,
        data: seq![(BOOTSTRAP_FILE@, content)],
    })
}

/// The config map of what Agentgateway starts with.
pub fn create_bootstrap_config_map(name: &str, gateway: &Gateway, content: String) -> (r:
    ConfigMapPlan)
    ensures
        holds_bootstrap(r.deep_view(), name@, gateway.deep_view(), content@),
{
    ConfigMapPlan {
        name: name.to_owned(),
        namespace: gateway.namespace().to_owned(),
        annotations: fresh_version(),
        data: one_entry(BOOTSTRAP_FILE, content),
    }
}

/// What is deployed for a gateway, where what Agentgateway starts with was rendered.
pub fn deploy_agentgateway(
    config: &ControlPlaneConfig,
    gateway: &Gateway,
    content: Result<String, TemplateError>,
) -> (r: Result<DeployPlan, TemplateError>)
    ensures
        match content {
            Ok(text) => {
                &&& r is Ok
                &&& r->Ok_0.field_manager@ == config.controller_name@
                &&& holds_bootstrap(
                    r->Ok_0.config_map.deep_view(),
                    gateway.deep_view().resource_key.name + "-bootstrap-cm"@,
                    gateway.deep_view(),
                    text@,
                )
                &&& deploys(r->Ok_0.deployment.deep_view(), gateway.deep_view())
                &&& r->Ok_0.service.deep_view() == gateway.deep_view().service()
                &&& r->Ok_0.service_account.deep_view() == gateway.deep_view().service_account()
            },
            Err(error) => r == Err::<DeployPlan, TemplateError>(error),
        },
{
    let text = match content {
        Ok(text) => text,
        Err(error) => {
            return Err(error);
        },
    };
    let (_, name) = config_map_names(gateway);
    Ok(
        DeployPlan {
            field_manager: config.controller_name.dup(),
            config_map: create_bootstrap_config_map(name.as_str(), gateway, text),
            deployment: create_deployment(gateway),
            service: create_service(gateway),
            service_account: create_service_account(gateway),
        },
    )
}

/// All resources of a gateway are told of: its ports, then its listeners, its routes, its backends and
/// its policies, each in its own kind and in its order.
pub proof fn law_all_resources_are_told_of(gateway: GatewayView)
    ensures
        ({
            let all = gateway.agent_resources();
            let binds = gateway.agent_bound().len() as int;
            let listeners = gateway.agent_listener_resources().len() as int;
            let routes = gateway.agent_routes().len() as int;
            let backends = gateway.agent_backends().len() as int;
            let policies = gateway.agent_policies().len() as int;
            &&& all.len() == binds + listeners + routes + backends + policies
            &&& forall|i: int|
                #![trigger gateway.agent_bound()[i]]
                0 <= i < binds ==> all[i] == (ResourceView {
                    kind: Some(
                        KindView::Bind(
                            BindView {
                                key: gateway.agent_bound()[i].0.0,
                                port: gateway.agent_bound()[i].0.1,
                            },
                        ),
                    ),
                })
            &&& forall|i: int|
                0 <= i < listeners ==> all[binds + i] == #[trigger] gateway.agent_listener_resources()[i]
            &&& forall|i: int|
                0 <= i < routes ==> all[binds + listeners + i] == (ResourceView {
                    kind: Some(KindView::Route(#[trigger] gateway.agent_routes()[i])),
                })
            &&& forall|i: int|
                0 <= i < backends ==> all[binds + listeners + routes + i] == (ResourceView {
                    kind: Some(KindView::Backend(#[trigger] gateway.agent_backends()[i])),
                })
            &&& forall|i: int|
                0 <= i < policies ==> all[binds + listeners + routes + backends + i] == (
                ResourceView { kind: Some(KindView::Policy(#[trigger] gateway.agent_policies()[i])) })
        }),
{
}

/// Each listener of a gateway is among the resources, as it is told of.
pub proof fn law_listener_is_a_resource(gateway: GatewayView, i: int)
    requires
        0 <= i < gateway.listeners.len(),
    ensures
        gateway.agent_listener_resources().contains(
            ResourceView {
                kind: Some(
                    KindView::Listener(
                        told_listener(gateway.resource_key.name, gateway.listeners[i].1),
                    ),
                ),
            },
        ),
{
    let listeners = values(gateway.listeners);
    let made = gateway.agent_bound();
    let told = told_listener(gateway.resource_key.name, listeners[i]);
    let bind = bind_of(listeners[i]);
    assert(listeners[i] == gateway.listeners[i].1);
    law_listeners_are_bound(gateway.resource_key.name, listeners, i);
    let b = choose|b: int| 0 <= b < made.len() && keys(made)[b] == bind;
    assert(keys(made).contains(bind));
    table_of_entry::<(String, u32), Seq<ListenerView>>(made, b);
    let at = made[b].1;
    let l = choose|l: int| 0 <= l < at.len() && at[l] == told;
    let resource = ResourceView { kind: Some(KindView::Listener(told)) };
    assert(listener_resources()(made[b])[l] == resource);
    assert(listener_resources()(made[b]).contains(resource));
    joined_contains(made, listener_resources(), resource);
}

/// The discovery service is told of all resources of a gateway, and of its services as workloads in
/// their order, under the key of the gateway.
pub proof fn law_discovery_is_told(gateway: GatewayView)
    ensures
        ({
            let (resources, workloads) = gateway.server_actions();
            &&& resources is UpdateResources
            &&& resources->UpdateResources_gateway_id == gateway.resource_key
            &&& resources->resources == gateway.agent_resources()
            &&& workloads is UpdateWorkloads
            &&& workloads->UpdateWorkloads_gateway_id == gateway.resource_key
            &&& workloads->workloads.len() == gateway.agent_services().len()
            &&& forall|i: int|
                0 <= i < gateway.agent_services().len() ==> (
                #[trigger] workloads->workloads[i]).address_type == Some(
                    AddressTypeView::Service(gateway.agent_services()[i]),
                )
        }),
{
}

/// Ports are told of before listeners and those before routes, and deleted in the other order: each with
/// the same resources, for the key of the gateway, in the first version.
pub proof fn law_deletes_undo_updates(gateway: GatewayView)
    ensures
        ({
            let updates = gateway.agent_updates();
            let deletes = gateway.agent_deletes();
            &&& updates.len() == 3
            &&& deletes.len() == 3
            &&& updates[0] is UpdateBindings
            &&& updates[1] is UpdateListeners
            &&& updates[2] is UpdateRoutes
            &&& deletes[0] is DeleteRoutes
            &&& deletes[1] is DeleteListeners
            &&& deletes[2] is DeleteBindings
            &&& updates[0]->UpdateBindings_resources == gateway.agent_binding_resources()
            &&& updates[1]->UpdateListeners_resources == gateway.agent_listener_resources()
            &&& updates[2]->UpdateRoutes_resources == gateway.agent_route_resources()
            &&& deletes[0]->DeleteRoutes_resources == updates[2]->UpdateRoutes_resources
            &&& deletes[1]->DeleteListeners_resources == updates[1]->UpdateListeners_resources
            &&& deletes[2]->DeleteBindings_resources == updates[0]->UpdateBindings_resources
            &&& updates[0]->UpdateBindings_gateway_id == gateway.resource_key
            &&& updates[1]->UpdateListeners_gateway_id == gateway.resource_key
            &&& updates[2]->UpdateRoutes_gateway_id == gateway.resource_key
            &&& deletes[0]->DeleteRoutes_gateway_id == gateway.resource_key
            &&& deletes[1]->DeleteListeners_gateway_id == gateway.resource_key
            &&& deletes[2]->DeleteBindings_gateway_id == gateway.resource_key
            &&& updates[0]->UpdateBindings_ack_version == 1
            &&& updates[1]->UpdateListeners_ack_version == 1
            &&& updates[2]->UpdateRoutes_ack_version == 1
            &&& deletes[0]->DeleteRoutes_ack_version == 1
            &&& deletes[1]->DeleteListeners_ack_version == 1
            &&& deletes[2]->DeleteBindings_ack_version == 1
        }),
{
}

/// What Agentgateway starts with is where the control plane listens.
pub proof fn law_bootstrap(config: ControlPlaneConfigView)
    ensures
        bootstrap_of(config).secrets is None,
        bootstrap_of(config).control_plane_host == config.listening_socket.address,
        bootstrap_of(config).control_plane_port == config.listening_socket.port,
        BOOTSTRAP_TEMPLATE@ == "agent-gateway-bootstrap-dynamic.yaml.tera"@,
{
}

/// The deployment of a gateway has its name and namespace, one pod that bears the label that its service
/// selects, the ports of its listeners, and what it starts with as its volume.
pub proof fn law_deployment(plan: DeploymentPlanView, gateway: GatewayView)
    requires
        deploys(plan, gateway),
    ensures
        plan.name == gateway.resource_key.name,
        plan.namespace == gateway.resource_key.namespace,
        plan.labels == gateway.service().selector,
        plan.replicas == 1,
        plan.ports == gateway.container_ports(),
        plan.volumes.len() == 1,
        plan.volumes[0].name == "agentgateway-config"@,
        plan.volumes[0].projected is None,
        plan.volumes[0].config_map is Some,
{
}

/// The config map holds the text as the one file that the volume of the deployment mounts.
pub proof fn law_config_map_is_mounted(
    plan: ConfigMapPlanView,
    gateway: GatewayView,
    content: Seq<char>,
)
    requires
        holds_bootstrap(plan, gateway.resource_key.name + "-bootstrap-cm"@, gateway, content),
    ensures
        plan.namespace == gateway.resource_key.namespace,
        plan.name == config_volume(gateway).config_map->0.name,
        plan.data.len() == 1,
        plan.data[0].0 == "agentgateway-bootstrap.yaml"@,
        config_volume(gateway).config_map->0.items is Some,
        config_volume(gateway).config_map->0.items->0.len() == 1,
        config_volume(gateway).config_map->0.items->0[0].key == plan.data[0].0,
        config_volume(gateway).config_map->0.items->0[0].path == plan.data[0].0,
        plan.data[0].1 == content,
{
}

} // verus!

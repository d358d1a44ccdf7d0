//! What is deployed for a gateway: a deployment, a service, a service account and config maps.
use vstd::prelude::*;
use crate::backends::envoy::listeners::{
    certificate_name,
    create_certificate_name,
    create_key_name,
    key_name,
};
use crate::common::address::{GatewayAddress, GatewayAddressView, HostText, HostTextView};
use crate::common::certificate::{Certificate, CertificateView};
use crate::common::contexts::{
    BackendGatewayResponse,
    BackendGatewayResponseView,
    ChangedContext,
    ChangedContextView,
};
use crate::common::gateway::{Gateway, GatewayView};
use crate::common::listener::{Listener, ListenerView, TlsType, TlsTypeView};
use crate::common::resource_key::{ResourceKey, ResourceKeyView};
use crate::identifiers::{fresh_text, uuid_of};
use crate::lists::{
    append_list,
    choose_list,
    chosen,
    chosen_contains,
    dedup_list,
    deduped,
    join_list,
    joined,
    joined_contains,
    law_deduped_covers,
    law_deduped_keeps,
    map_list,
    no_items,
    one_item,
};
use crate::model::Model;
use crate::ordered::{OrderedMap, OrderedSet, increasing, law_set_of, set_of, values};
use crate::text::{cat, cat3, decimal, decimal_text, lowercase, to_lowercase};

verus! {

/// A key of a config map or a secret, and the file that it becomes.
#[derive(Debug, PartialEq, Eq)]
pub struct KeyToPath {
    pub key: String,
    pub path: String,
}

/// What a [`KeyToPath`] holds.
#[verifier::ext_equal]
pub struct KeyToPathView {
    pub key: Seq<char>,
    pub path: Seq<char>,
}

impl DeepView for KeyToPath {
    type V = KeyToPathView;

    open spec fn deep_view(&self) -> KeyToPathView {
        KeyToPathView {
            key: self.key.deep_view(),
            path: self.path.deep_view(),
        }
    }
}

impl Model for KeyToPath {
    fn dup(&self) -> (r: Self) {
        KeyToPath {
            key: self.key.dup(),
            path: self.path.dup(),
        }
    }

    fn same(&self, other: &Self) -> (r: bool) {
        self.key.same(&other.key)
            && self.path.same(&other.path)
    }
}

/// A config map as a volume, with the keys that become files: all of them where none are listed.
#[derive(Debug, PartialEq, Eq)]
pub struct ConfigMapVolume {
    pub name: String,
    pub items: Option<Vec<KeyToPath>>,
}

/// What a [`ConfigMapVolume`] holds.
#[verifier::ext_equal]
pub struct ConfigMapVolumeView {
    pub name: Seq<char>,
    pub items: Option<Seq<KeyToPathView>>,
}

impl DeepView for ConfigMapVolume {
    type V = ConfigMapVolumeView;

    open spec fn deep_view(&self) -> ConfigMapVolumeView {
        ConfigMapVolumeView {
            name: self.name.deep_view(),
            items: self.items.deep_view(),
        }
    }
}

impl Model for ConfigMapVolume {
    fn dup(&self) -> (r: Self) {
        ConfigMapVolume {
            name: self.name.dup(),
            items: self.items.dup(),
        }
    }

    fn same(&self, other: &Self) -> (r: bool) {
        self.name.same(&other.name)
            && self.items.same(&other.items)
    }
}

/// A secret in a volume.
#[derive(Debug, PartialEq, Eq)]
pub struct SecretProjection {
    pub name: String,
    pub items: Vec<KeyToPath>,
}

/// What a [`SecretProjection`] holds.
#[verifier::ext_equal]
pub struct SecretProjectionView {
    pub name: Seq<char>,
    pub items: Seq<KeyToPathView>,
}

impl DeepView for SecretProjection {
    type V = SecretProjectionView;

    open spec fn deep_view(&self) -> SecretProjectionView {
        SecretProjectionView {
            name: self.name.deep_view(),
            items: self.items.deep_view(),
        }
    }
}

impl Model for SecretProjection {
    fn dup(&self) -> (r: Self) {
        SecretProjection {
            name: self.name.dup(),
            items: self.items.dup(),
        }
    }

    fn same(&self, other: &Self) -> (r: bool) {
        self.name.same(&other.name)
            && self.items.same(&other.items)
    }
}

/// A volume of a pod.
#[derive(Debug, PartialEq, Eq)]
pub struct Volume {
    pub name: String,
    pub config_map: Option<ConfigMapVolume>,
    pub projected: Option<Vec<SecretProjection>>,
}

/// What a [`Volume`] holds.
#[verifier::ext_equal]
pub struct VolumeView {
    pub name: Seq<char>,
    pub config_map: Option<ConfigMapVolumeView>,
    pub projected: Option<Seq<SecretProjectionView>>,
}

impl DeepView for Volume {
    type V = VolumeView;

    open spec fn deep_view(&self) -> VolumeView {
        VolumeView {
            name: self.name.deep_view(),
            config_map: self.config_map.deep_view(),
            projected: self.projected.deep_view(),
        }
    }
}

impl Model for Volume {
    fn dup(&self) -> (r: Self) {
        Volume {
            name: self.name.dup(),
            config_map: self.config_map.dup(),
            projected: self.projected.dup(),
        }
    }

    fn same(&self, other: &Self) -> (r: bool) {
        self.name.same(&other.name)
            && self.config_map.same(&other.config_map)
            && self.projected.same(&other.projected)
    }
}

/// A port of a container.
#[derive(Debug, PartialEq, Eq)]
pub struct ContainerPort {
    pub container_port: i32,
    pub protocol: String,
}

/// What a [`ContainerPort`] holds.
#[verifier::ext_equal]
pub struct ContainerPortView {
    pub container_port: i32,
    pub protocol: Seq<char>,
}

impl DeepView for ContainerPort {
    type V = ContainerPortView;

    open spec fn deep_view(&self) -> ContainerPortView {
        ContainerPortView {
            container_port: self.container_port.deep_view(),
            protocol: self.protocol.deep_view(),
        }
    }
}

impl Model for ContainerPort {
    fn dup(&self) -> (r: Self) {
        ContainerPort {
            container_port: self.container_port.dup(),
            protocol: self.protocol.dup(),
        }
    }

    fn same(&self, other: &Self) -> (r: bool) {
        self.container_port.same(&other.container_port)
            && self.protocol.same(&other.protocol)
    }
}

/// A deployment. Its labels select its pods, which bear them too.
#[derive(Debug, PartialEq, Eq)]
pub struct DeploymentPlan {
    pub name: String,
    pub namespace: String,
    pub annotations: Option<OrderedMap<String, String>>,
    pub labels: OrderedMap<String, String>,
    pub replicas: i32,
    pub ports: Vec<ContainerPort>,
    pub volumes: Vec<Volume>,
}

/// What a [`DeploymentPlan`] holds.
#[verifier::ext_equal]
pub struct DeploymentPlanView {
    pub name: Seq<char>,
    pub namespace: Seq<char>,
    pub annotations: Option<Seq<(Seq<char>, Seq<char>)>>,
    pub labels: Seq<(Seq<char>, Seq<char>)>,
    pub replicas: i32,
    pub ports: Seq<ContainerPortView>,
    pub volumes: Seq<VolumeView>,
}

impl DeepView for DeploymentPlan {
    type V = DeploymentPlanView;

    open spec fn deep_view(&self) -> DeploymentPlanView {
        DeploymentPlanView {
            name: self.name.deep_view(),
            namespace: self.namespace.deep_view(),
            annotations: self.annotations.deep_view(),
            labels: self.labels.deep_view(),
            replicas: self.replicas.deep_view(),
            ports: self.ports.deep_view(),
            volumes: self.volumes.deep_view(),
        }
    }
}

impl Model for DeploymentPlan {
    fn dup(&self) -> (r: Self) {
        DeploymentPlan {
            name: self.name.dup(),
            namespace: self.namespace.dup(),
            annotations: self.annotations.dup(),
            labels: self.labels.dup(),
            replicas: self.replicas.dup(),
            ports: self.ports.dup(),
            volumes: self.volumes.dup(),
        }
    }

    fn same(&self, other: &Self) -> (r: bool) {
        self.name.same(&other.name)
            && self.namespace.same(&other.namespace)
            && self.annotations.same(&other.annotations)
            && self.labels.same(&other.labels)
            && self.replicas.same(&other.replicas)
            && self.ports.same(&other.ports)
            && self.volumes.same(&other.volumes)
    }
}

/// A port of a service.
#[derive(Debug, PartialEq, Eq)]
pub struct ServicePort {
    pub name: String,
    pub port: i32,
    pub protocol: String,
    pub target_port: i32,
}

/// What a [`ServicePort`] holds.
#[verifier::ext_equal]
pub struct ServicePortView {
    pub name: Seq<char>,
    pub port: i32,
    pub protocol: Seq<char>,
    pub target_port: i32,
}

impl DeepView for ServicePort {
    type V = ServicePortView;

    open spec fn deep_view(&self) -> ServicePortView {
        ServicePortView {
            name: self.name.deep_view(),
            port: self.port.deep_view(),
            protocol: self.protocol.deep_view(),
            target_port: self.target_port.deep_view(),
        }
    }
}

impl Model for ServicePort {
    fn dup(&self) -> (r: Self) {
        ServicePort {
            name: self.name.dup(),
            port: self.port.dup(),
            protocol: self.protocol.dup(),
            target_port: self.target_port.dup(),
        }
    }

    fn same(&self, other: &Self) -> (r: bool) {
        self.name.same(&other.name)
            && self.port.same(&other.port)
            && self.protocol.same(&other.protocol)
            && self.target_port.same(&other.target_port)
    }
}

/// A service.
#[derive(Debug, PartialEq, Eq)]
pub struct ServicePlan {
    pub name: String,
    pub namespace: String,
    pub labels: OrderedMap<String, String>,
    pub selector: OrderedMap<String, String>,
    pub ports: Vec<ServicePort>,
    pub service_type: String,
}

/// What a [`ServicePlan`] holds.
#[verifier::ext_equal]
pub struct ServicePlanView {
    pub name: Seq<char>,
    pub namespace: Seq<char>,
    pub labels: Seq<(Seq<char>, Seq<char>)>,
    pub selector: Seq<(Seq<char>, Seq<char>)>,
    pub ports: Seq<ServicePortView>,
    pub service_type: Seq<char>,
}

impl DeepView for ServicePlan {
    type V = ServicePlanView;

    open spec fn deep_view(&self) -> ServicePlanView {
        ServicePlanView {
            name: self.name.deep_view(),
            namespace: self.namespace.deep_view(),
            labels: self.labels.deep_view(),
            selector: self.selector.deep_view(),
            ports: self.ports.deep_view(),
            service_type: self.service_type.deep_view(),
        }
    }
}

impl Model for ServicePlan {
    fn dup(&self) -> (r: Self) {
        ServicePlan {
            name: self.name.dup(),
            namespace: self.namespace.dup(),
            labels: self.labels.dup(),
            selector: self.selector.dup(),
            ports: self.ports.dup(),
            service_type: self.service_type.dup(),
        }
    }

    fn same(&self, other: &Self) -> (r: bool) {
        self.name.same(&other.name)
            && self.namespace.same(&other.namespace)
            && self.labels.same(&other.labels)
            && self.selector.same(&other.selector)
            && self.ports.same(&other.ports)
            && self.service_type.same(&other.service_type)
    }
}

/// A service account.
#[derive(Debug, PartialEq, Eq)]
pub struct ServiceAccountPlan {
    pub name: String,
    pub namespace: String,
    pub labels: OrderedMap<String, String>,
}

/// What a [`ServiceAccountPlan`] holds.
#[verifier::ext_equal]
pub struct ServiceAccountPlanView {
    pub name: Seq<char>,
    pub namespace: Seq<char>,
    pub labels: Seq<(Seq<char>, Seq<char>)>,
}

impl DeepView for ServiceAccountPlan {
    type V = ServiceAccountPlanView;

    open spec fn deep_view(&self) -> ServiceAccountPlanView {
        ServiceAccountPlanView {
            name: self.name.deep_view(),
            namespace: self.namespace.deep_view(),
            labels: self.labels.deep_view(),
        }
    }
}

impl Model for ServiceAccountPlan {
    fn dup(&self) -> (r: Self) {
        ServiceAccountPlan {
            name: self.name.dup(),
            namespace: self.namespace.dup(),
            labels: self.labels.dup(),
        }
    }

    fn same(&self, other: &Self) -> (r: bool) {
        self.name.same(&other.name)
            && self.namespace.same(&other.namespace)
            && self.labels.same(&other.labels)
    }
}

/// A config map.
#[derive(Debug, PartialEq, Eq)]
pub struct ConfigMapPlan {
    pub name: String,
    pub namespace: String,
    pub annotations: Option<OrderedMap<String, String>>,
    pub data: OrderedMap<String, String>,
}

/// What a [`ConfigMapPlan`] holds.
#[verifier::ext_equal]
pub struct ConfigMapPlanView {
    pub name: Seq<char>,
    pub namespace: Seq<char>,
    pub annotations: Option<Seq<(Seq<char>, Seq<char>)>>,
    pub data: Seq<(Seq<char>, Seq<char>)>,
}

impl DeepView for ConfigMapPlan {
    type V = ConfigMapPlanView;

    open spec fn deep_view(&self) -> ConfigMapPlanView {
        ConfigMapPlanView {
            name: self.name.deep_view(),
            namespace: self.namespace.deep_view(),
            annotations: self.annotations.deep_view(),
            data: self.data.deep_view(),
        }
    }
}

impl Model for ConfigMapPlan {
    fn dup(&self) -> (r: Self) {
        ConfigMapPlan {
            name: self.name.dup(),
            namespace: self.namespace.dup(),
            annotations: self.annotations.dup(),
            data: self.data.dup(),
        }
    }

    fn same(&self, other: &Self) -> (r: bool) {
        self.name.same(&other.name)
            && self.namespace.same(&other.namespace)
            && self.annotations.same(&other.annotations)
            && self.data.same(&other.data)
    }
}

/// The name of a port of a service.
pub open spec fn port_name(gateway: Seq<char>, port: i32, protocol: Seq<char>) -> Seq<char> {
    gateway + "-"@ + decimal(port as int) + "-"@ + lowercase(protocol)
}

/// The name of a port of a service: the gateway, the port, and the protocol in lower case.
pub fn name(gw: &str, port: i32, proto: &str) -> (r: String)
    ensures
        r@ == port_name(gw@, port, proto@),
{
    let number = decimal_text(port as i64);
    let start = cat3(gw, "-", number.as_str());
    let protocol = to_lowercase(proto);
    cat3(start.as_str(), "-", protocol.as_str())
}

/// The names of the config maps of a gateway: what Envoy serves, and what it starts with.
pub fn config_map_names(gateway: &Gateway) -> (r: (String, String))
    ensures
        r.0@ == gateway.deep_view().resource_key.name + "-xds-cm"@,
        r.1@ == gateway.deep_view().resource_key.name + "-bootstrap-cm"@,
{
    (cat(gateway.name(), "-xds-cm"), cat(gateway.name(), "-bootstrap-cm"))
}

/// The labels that all that is deployed for a gateway bears: none.
pub fn create_labels(_gateway: &Gateway) -> (r: OrderedMap<String, String>)
    ensures
        r.deep_view() == Seq::<(Seq<char>, Seq<char>)>::empty(),
{
    OrderedMap::new()
}

/// A map of one entry.
pub fn one_entry(key: &str, value: String) -> (r: OrderedMap<String, String>)
    ensures
        r.deep_view() == seq![(key@, value@)],
{
    let mut out: OrderedMap<String, String> = OrderedMap::new();
    out.insert(key.to_owned(), value);
    assert(out.deep_view() =~= seq![(key@, value@)]);
    out
}

impl GatewayView {
    /// The labels that select the pods of the gateway.
    pub open spec fn app_label(self) -> Seq<(Seq<char>, Seq<char>)> {
        seq![("app"@, self.resource_key.name)]
    }

    /// The service account of the gateway.
    pub open spec fn service_account(self) -> ServiceAccountPlanView {
        ServiceAccountPlanView {
            name: self.resource_key.name,
            namespace: self.resource_key.namespace,
            labels: Seq::empty(),
        }
    }

    /// The service of the gateway: a port for each listener, but one for listeners that follow each
    /// other at one port.
    pub open spec fn service(self) -> ServicePlanView {
        ServicePlanView {
            name: self.resource_key.name,
            namespace: self.resource_key.namespace,
            labels: Seq::empty(),
            selector: self.app_label(),
            ports: deduped(
                values(self.listeners).map_values(service_port(self.resource_key.name)),
                same_service_port(),
            ),
            service_type: "LoadBalancer"@,
        }
    }

    /// The ports of the containers of the gateway: one for each listener, but one for listeners that
    /// follow each other at one port.
    pub open spec fn container_ports(self) -> Seq<ContainerPortView> {
        deduped(values(self.listeners).map_values(container_port()), same_container_port())
    }
}

/// The port of a service for a listener.
pub open spec fn service_port(gateway: Seq<char>) -> spec_fn(ListenerView) -> ServicePortView {
    |listener: ListenerView|
        ServicePortView {
            name: port_name(gateway, listener.made_of().config.port, listener.speaks().name()),
            port: listener.made_of().config.port,
            protocol: "TCP"@,
            target_port: listener.made_of().config.port,
        }
}

/// Whether two ports of a service are at one port with one protocol.
pub open spec fn same_service_port() -> spec_fn(ServicePortView, ServicePortView) -> bool {
    |a: ServicePortView, b: ServicePortView| a.port == b.port && a.protocol == b.protocol
}

/// The port of a container for a listener.
pub open spec fn container_port() -> spec_fn(ListenerView) -> ContainerPortView {
    |listener: ListenerView|
        ContainerPortView { container_port: listener.made_of().config.port, protocol: "TCP"@ }
}

/// Whether two ports of a container are at one port with one protocol.
pub open spec fn same_container_port() -> spec_fn(ContainerPortView, ContainerPortView) -> bool {
    |a: ContainerPortView, b: ContainerPortView|
        a.container_port == b.container_port && a.protocol == b.protocol
}

/// The service account of a gateway.
pub fn create_service_account(gateway: &Gateway) -> (r: ServiceAccountPlan)
    ensures
        r.deep_view() == gateway.deep_view().service_account(),
{
    ServiceAccountPlan {
        name: gateway.name().to_owned(),
        namespace: gateway.namespace().to_owned(),
        labels: create_labels(gateway),
    }
}

/// The service of a gateway.
pub fn create_service(gateway: &Gateway) -> (r: ServicePlan)
    ensures
        r.deep_view() == gateway.deep_view().service(),
{
    let listeners = gateway.listeners();
    let ghost gateway_name = gateway.deep_view().resource_key.name;
    let ports = map_list(
        &listeners,
        |listener: &&Listener| -> (y: ServicePort)
            ensures y.deep_view() == service_port(gateway_name)(listener.deep_view())
        {
            ServicePort {
                name: name(gateway.name(), listener.port(), listener.protocol().to_text()),
                port: listener.port(),
                protocol: "TCP".to_owned(),
                target_port: listener.port(),
            }
        },
        Ghost(service_port(gateway_name)),
    );
    ServicePlan {
        name: gateway.name().to_owned(),
        namespace: gateway.namespace().to_owned(),
        labels: create_labels(gateway),
        selector: one_entry("app", gateway.name().to_owned()),
        ports: dedup_list(
            &ports,
            |a: &ServicePort, b: &ServicePort| -> (y: bool)
                ensures y == same_service_port()(a.deep_view(), b.deep_view())
            { a.port == b.port && a.protocol.same(&b.protocol) },
            Ghost(same_service_port()),
        ),
        service_type: "LoadBalancer".to_owned(),
    }
}

/// The ports of the containers of a gateway.
pub fn create_container_ports(gateway: &Gateway) -> (r: Vec<ContainerPort>)
    ensures
        r.deep_view() == gateway.deep_view().container_ports(),
{
    let listeners = gateway.listeners();
    let ports = map_list(
        &listeners,
        |listener: &&Listener| -> (y: ContainerPort)
            ensures y.deep_view() == container_port()(listener.deep_view())
        { ContainerPort { container_port: listener.port(), protocol: "TCP".to_owned() } },
        Ghost(container_port()),
    );
    dedup_list(
        &ports,
        |a: &ContainerPort, b: &ContainerPort| -> (y: bool)
            ensures y == same_container_port()(a.deep_view(), b.deep_view())
        { a.container_port == b.container_port && a.protocol.same(&b.protocol) },
        Ghost(same_container_port()),
    )
}

/// The secrets that a listener needs, where it is an HTTPS listener that ends TLS.
pub open spec fn https_certificates() -> spec_fn(ListenerView) -> Seq<CertificateView> {
    |listener: ListenerView|
        match listener {
            ListenerView::Https(data) => match data.config.tls_type {
                Some(TlsTypeView::Terminate(certificates)) => certificates,
                _ => Seq::empty(),
            },
            _ => Seq::empty(),
        }
}

fn list_certificates(listener: &&Listener) -> (r: Vec<Certificate>)
    ensures
        r.deep_view() == https_certificates()(listener.deep_view()),
{
    match listener {
        Listener::Https(data) => match &data.config.tls_type {
            Some(TlsType::Terminate(certificates)) => certificates.dup(),
            _ => no_items(),
        },
        _ => no_items(),
    }
}

/// The certificates of the HTTPS listeners, listener by listener.
pub fn collect_certificates(listeners: &Vec<&Listener>) -> (r: Vec<Certificate>)
    ensures
        r.deep_view() == joined(listeners.deep_view(), https_certificates()),
{
    join_list(listeners, list_certificates, Ghost(https_certificates()))
}

/// A secret in a volume: its certificate and its key become files.
pub open spec fn secret_files() -> spec_fn(ResourceKeyView) -> SecretProjectionView {
    |key: ResourceKeyView|
        SecretProjectionView {
            name: key.name,
            items: seq![
                KeyToPathView { key: "tls.crt"@, path: certificate_name(key) },
                KeyToPathView { key: "tls.key"@, path: key_name(key) },
            ],
        }
}

fn project_secret(key: &ResourceKey) -> (r: SecretProjection)
    ensures
        r.deep_view() == secret_files()(key.deep_view()),
{
    let first = KeyToPath { key: "tls.crt".to_owned(), path: create_certificate_name(key) };
    let second = KeyToPath { key: "tls.key".to_owned(), path: create_key_name(key) };
    let items = append_list(one_item(first), one_item(second));
    assert(items.deep_view() =~= secret_files()(key.deep_view()).items);
    SecretProjection { name: key.name.dup(), items }
}

/// The volume of some secrets, each once, in the order of their keys.
pub open spec fn secret_volume(keys: Seq<ResourceKeyView>) -> VolumeView {
    VolumeView {
        name: "envoy-secrets"@,
        config_map: None,
        projected: Some(set_of::<ResourceKey>(keys).map_values(secret_files())),
    }
}

/// The volume of some secrets, each once, in the order of their keys.
pub fn create_secret_volume(keys: &Vec<ResourceKey>) -> (r: Volume)
    ensures
        r.deep_view() == secret_volume(keys.deep_view()),
{
    let set = OrderedSet::gather(keys);
    Volume {
        name: "envoy-secrets".to_owned(),
        config_map: None,
        projected: Some(map_list(set.items(), project_secret, Ghost(secret_files()))),
    }
}

/// The volume of what Envoy starts with.
pub open spec fn bootstrap_volume(gateway: GatewayView) -> VolumeView {
    VolumeView {
        name: "envoy-config"@,
        config_map: Some(
            ConfigMapVolumeView {
                name: gateway.resource_key.name + "-bootstrap-cm"@,
                items: Some(
                    seq![
                        KeyToPathView { key: "envoy-bootstrap.yaml"@, path: "envoy-bootstrap.yaml"@ },
                    ],
                ),
            },
        ),
        projected: None,
    }
}

/// The volume of what Envoy starts with.
pub fn create_bootstrap_volume(gateway: &Gateway) -> (r: Volume)
    ensures
        r.deep_view() == bootstrap_volume(gateway.deep_view()),
{
    let (_, bootstrap) = config_map_names(gateway);
    Volume {
        name: "envoy-config".to_owned(),
        config_map: Some(
            ConfigMapVolume {
                name: bootstrap,
                items: Some(
                    one_item(
                        KeyToPath {
                            key: "envoy-bootstrap.yaml".to_owned(),
                            path: "envoy-bootstrap.yaml".to_owned(),
                        },
                    ),
                ),
            },
        ),
        projected: None,
    }
}

/// Annotations that hold a random version.
pub open spec fn versioned(annotations: Option<Seq<(Seq<char>, Seq<char>)>>) -> bool {
    annotations matches Some(entries) && entries.len() == 1 && entries[0].0 == "gateway-version"@
        && uuid_of(entries[0].1) is Some
}

/// Annotations that hold a random version.
pub fn fresh_version() -> (r: Option<OrderedMap<String, String>>)
    ensures
        versioned(r.deep_view()),
{
    Some(one_entry("gateway-version", fresh_text()))
}

/// What is known of a service that was deployed: its key, and the addresses that its load balancer is
/// reached at. An address may have no IP address.
#[derive(Debug, PartialEq, Eq)]
pub struct DeployedService {
    pub resource_key: ResourceKey,
    pub ingress: Option<Vec<Option<HostText>>>,
}

/// What a [`DeployedService`] holds.
#[verifier::ext_equal]
pub struct DeployedServiceView {
    pub resource_key: ResourceKeyView,
    pub ingress: Option<Seq<Option<HostTextView>>>,
}

impl DeepView for DeployedService {
    type V = DeployedServiceView;

    open spec fn deep_view(&self) -> DeployedServiceView {
        DeployedServiceView {
            resource_key: self.resource_key.deep_view(),
            ingress: self.ingress.deep_view(),
        }
    }
}

impl Model for DeployedService {
    fn dup(&self) -> (r: Self) {
        DeployedService {
            resource_key: self.resource_key.dup(),
            ingress: self.ingress.dup(),
        }
    }

    fn same(&self, other: &Self) -> (r: bool) {
        self.resource_key.same(&other.resource_key)
            && self.ingress.same(&other.ingress)
    }
}

/// The address, where there is one.
pub open spec fn given_address() -> spec_fn(Option<HostTextView>) -> Option<HostTextView> {
    |address: Option<HostTextView>| address
}

impl DeployedServiceView {
    /// The addresses of the service.
    pub open spec fn addresses(self) -> Seq<HostTextView> {
        match self.ingress {
            Some(ingress) => chosen(ingress, given_address()),
            None => Seq::empty(),
        }
    }
}

/// The IP address that a host spells, where it spells one.
pub open spec fn spelled_address() -> spec_fn(HostTextView) -> Option<GatewayAddressView> {
    |host: HostTextView|
        match host.octets {
            Some(octets) => Some(GatewayAddressView::IPAddress(octets)),
            None => None,
        }
}

fn give_address(address: &Option<HostText>) -> (r: Option<HostText>)
    ensures
        r.deep_view() == given_address()(address.deep_view()),
{
    address.dup()
}

fn spell_address(host: &HostText) -> (r: Option<GatewayAddress>)
    ensures
        r.deep_view() == spelled_address()(host.deep_view()),
{
    match &host.octets {
        Some(octets) => Some(GatewayAddress::IPAddress(octets.dup())),
        None => None,
    }
}

/// The addresses of a service, where it has some.
pub fn find_gateway_addresses(service: &DeployedService) -> (r: Option<Vec<HostText>>)
    ensures
        r.deep_view() == (if service.deep_view().addresses().len() > 0 {
            Some(service.deep_view().addresses())
        } else {
            None
        }),
{
    match &service.ingress {
        Some(ingress) => {
            let found = choose_list(ingress, give_address, Ghost(given_address()));
            if found.len() > 0 {
                Some(found)
            } else {
                None
            }
        },
        None => None,
    }
}

/// Whether a gateway was given the IP addresses of a service, and nothing else of it changed.
pub open spec fn gained_addresses(
    before: GatewayView,
    after: GatewayView,
    service: DeployedServiceView,
) -> bool {
    &&& after == (GatewayView { addresses: after.addresses, ..before })
    &&& after.addresses.to_set() == before.addresses.to_set().union(
        chosen(service.addresses(), spelled_address()).to_set(),
    )
    &&& increasing::<GatewayAddress>(after.addresses)
}

/// Gives a gateway the IP addresses of a service. It is told whether the service has addresses.
pub fn update_addresses(gateway: &mut Gateway, service: &DeployedService) -> (r: bool)
    ensures
        r == (service.deep_view().addresses().len() > 0),
        r ==> gained_addresses(old(gateway).deep_view(), final(gateway).deep_view(), service.deep_view()),
        !r ==> *final(gateway) == *old(gateway),
{
    match find_gateway_addresses(service) {
        Some(attached) => {
            let addresses = choose_list(&attached, spell_address, Ghost(spelled_address()));
            gateway.addresses.insert_each(&addresses);
            true
        },
        None => false,
    }
}

/// What is to be done once a service was deployed.
#[derive(Debug)]
pub enum FollowUp {
    Respond(BackendGatewayResponse),
    PollAddress { service: ResourceKey, context: ChangedContext },
}

/// What a [`FollowUp`] holds.
#[verifier::ext_equal]
pub enum FollowUpView {
    Respond(BackendGatewayResponseView),
    PollAddress { service: ResourceKeyView, context: ChangedContextView },
}

impl DeepView for FollowUp {
    type V = FollowUpView;

    open spec fn deep_view(&self) -> FollowUpView {
        match self {
            FollowUp::Respond(x0) => FollowUpView::Respond(x0.deep_view()),
            FollowUp::PollAddress { service, context } => FollowUpView::PollAddress { service: service.deep_view(), context: context.deep_view() },
        }
    }
}

impl Model for FollowUp {
    fn dup(&self) -> (r: Self) {
        match self {
            FollowUp::Respond(x0) => FollowUp::Respond(x0.dup()),
            FollowUp::PollAddress { service, context } => FollowUp::PollAddress { service: service.dup(), context: context.dup() },
        }
    }

    fn same(&self, other: &Self) -> (r: bool) {
        match (self, other) {
            (FollowUp::Respond(x0), FollowUp::Respond(x0_)) => x0.same(x0_),
            (FollowUp::PollAddress { service, context }, FollowUp::PollAddress { service: service_, context: context_ }) => service.same(service_) && context.same(context_),
            _ => false,
        }
    }
}

impl ChangedContextView {
    /// The answer that the change was dealt with, with what came of it.
    pub open spec fn processed(self, gateway: GatewayView) -> BackendGatewayResponseView {
        BackendGatewayResponseView::ProcessedWithContext {
            gateway,
            kube_gateway: self.kube_gateway,
            gateway_class_name: self.gateway_class_name,
        }
    }
}

/// Whether an action follows the deployment of a service: the gateway is given the addresses of the
/// service and the answer tells of it, or the addresses are waited for.
pub open spec fn follows(
    action: FollowUpView,
    context: ChangedContextView,
    service: DeployedServiceView,
) -> bool {
    if service.addresses().len() > 0 {
        exists|after: GatewayView|
            #[trigger] gained_addresses(context.gateway, after, service) && action
                == FollowUpView::Respond(context.processed(after))
    } else {
        action == FollowUpView::PollAddress { service: service.resource_key, context }
    }
}

/// What follows the deployment of a service: the addresses are told of, or waited for.
pub fn update_address_with_polling(context: ChangedContext, service: &DeployedService) -> (r:
    FollowUp)
    ensures
        follows(r.deep_view(), context.deep_view(), service.deep_view()),
{
    let ghost before = context.deep_view();
    let mut gateway = context.gateway;
    if update_addresses(&mut gateway, service) {
        assert(gained_addresses(before.gateway, gateway.deep_view(), service.deep_view()));
        FollowUp::Respond(
            BackendGatewayResponse::ProcessedWithContext {
                gateway,
                kube_gateway: context.kube_gateway,
                gateway_class_name: context.gateway_class_name,
            },
        )
    } else {
        let context = ChangedContext {
            gateway,
            kube_gateway: context.kube_gateway,
            gateway_class_name: context.gateway_class_name,
        };
        FollowUp::PollAddress { service: service.resource_key.dup(), context }
    }
}

/// What is done where the addresses of a service were waited for and the service was looked up
/// again: where it has addresses they are told of and the wait is over; where it was not found
/// that is told of, and the wait goes on.
pub fn polled(context: &ChangedContext, service: Option<DeployedService>) -> (r: (
    Option<BackendGatewayResponse>,
    bool,
))
    ensures
        r.1 == (service matches Some(found) && found.deep_view().addresses().len() > 0),
        match service {
            Some(found) => if found.deep_view().addresses().len() > 0 {
                &&& r.0 is Some
                &&& follows(
                    FollowUpView::Respond(r.0->0.deep_view()),
                    context.deep_view(),
                    found.deep_view(),
                )
            } else {
                r.0 is None
            },
            None => r.0 is Some && r.0->0.deep_view() == BackendGatewayResponseView::Processed(
                context.deep_view().gateway,
            ),
        },
{
    match service {
        Some(found) => {
            let mut gateway = context.gateway.dup();
            let ghost before = gateway.deep_view();
            if update_addresses(&mut gateway, &found) {
                assert(gained_addresses(before, gateway.deep_view(), found.deep_view()));
                (
                    Some(
                        BackendGatewayResponse::ProcessedWithContext {
                            gateway,
                            kube_gateway: context.kube_gateway.dup(),
                            gateway_class_name: context.gateway_class_name.dup(),
                        },
                    ),
                    true,
                )
            } else {
                (None, false)
            }
        },
        None => (Some(BackendGatewayResponse::Processed(context.gateway.dup())), false),
    }
}

/// The port of each listener of a gateway is a port of its service and of its containers.
pub proof fn law_listeners_are_reached(gateway: GatewayView, i: int)
    requires
        0 <= i < values(gateway.listeners).len(),
    ensures
        exists|j: int|
            0 <= j < gateway.service().ports.len() && (#[trigger] gateway.service().ports[j]).port
                == values(gateway.listeners)[i].made_of().config.port,
        exists|j: int|
            0 <= j < gateway.container_ports().len() && (
            #[trigger] gateway.container_ports()[j]).container_port == values(
                gateway.listeners,
            )[i].made_of().config.port,
{
    let listeners = values(gateway.listeners);
    let ports = listeners.map_values(service_port(gateway.resource_key.name));
    law_deduped_covers(ports, same_service_port(), i);
    let j = choose|j: int|
        0 <= j < deduped(ports, same_service_port()).len() && (#[trigger] deduped(
            ports,
            same_service_port(),
        )[j] == ports[i] || same_service_port()(deduped(ports, same_service_port())[j], ports[i]));
    assert(gateway.service().ports[j].port == ports[i].port);
    let containers = listeners.map_values(container_port());
    law_deduped_covers(containers, same_container_port(), i);
    let k = choose|k: int|
        0 <= k < deduped(containers, same_container_port()).len() && (#[trigger] deduped(
            containers,
            same_container_port(),
        )[k] == containers[i] || same_container_port()(
            deduped(containers, same_container_port())[k],
            containers[i],
        ));
    assert(gateway.container_ports()[k].container_port == containers[i].container_port);
}

/// The service of a gateway has its name and namespace, takes requests from outside, and leads to the
/// pods that bear the name as their label `app`. The service account has the same name.
pub proof fn law_service_of_gateway(gateway: GatewayView)
    ensures
        gateway.service().name == gateway.resource_key.name,
        gateway.service().namespace == gateway.resource_key.namespace,
        gateway.service().service_type == "LoadBalancer"@,
        gateway.service().labels.len() == 0,
        gateway.service().selector == seq![("app"@, gateway.resource_key.name)],
        gateway.app_label() == seq![("app"@, gateway.resource_key.name)],
        gateway.service_account().name == gateway.resource_key.name,
        gateway.service_account().namespace == gateway.resource_key.namespace,
        gateway.service_account().labels.len() == 0,
{
}

/// Each port of the service of a gateway, and of its containers, is that of a listener: over TCP, and
/// for the service under the name of the gateway, the port and the protocol.
pub proof fn law_port_has_listener(gateway: GatewayView, p: int, q: int)
    ensures
        0 <= p < gateway.service().ports.len() ==> exists|i: int|
            {
                let port = gateway.service().ports[p];
                &&& 0 <= i < gateway.listeners.len()
                &&& (#[trigger] gateway.listeners[i]).1.made_of().config.port == port.port
                &&& port.target_port == port.port
                &&& port.protocol == "TCP"@
                &&& port.name == gateway.resource_key.name + "-"@ + decimal(port.port as int) + "-"@
                    + lowercase(gateway.listeners[i].1.speaks().name())
            },
        0 <= q < gateway.container_ports().len() ==> exists|i: int|
            0 <= i < gateway.listeners.len() && (
            #[trigger] gateway.listeners[i]).1.made_of().config.port
                == gateway.container_ports()[q].container_port
                && gateway.container_ports()[q].protocol == "TCP"@,
{
    let listeners = values(gateway.listeners);
    let ports = listeners.map_values(service_port(gateway.resource_key.name));
    law_deduped_keeps(ports, same_service_port());
    if 0 <= p < gateway.service().ports.len() {
        let port = gateway.service().ports[p];
        assert(ports.contains(port));
        let i = choose|i: int| 0 <= i < ports.len() && ports[i] == port;
        assert(listeners[i] == gateway.listeners[i].1);
    }
    let containers = listeners.map_values(container_port());
    law_deduped_keeps(containers, same_container_port());
    if 0 <= q < gateway.container_ports().len() {
        let port = gateway.container_ports()[q];
        assert(containers.contains(port));
        let i = choose|i: int| 0 <= i < containers.len() && containers[i] == port;
        assert(listeners[i] == gateway.listeners[i].1);
    }
}

/// Listeners at different ports that follow each other have each their own port of the service.
pub proof fn law_ports_of_distinct_listeners(gateway: GatewayView)
    requires
        forall|i: int, j: int|
            0 <= i < j < gateway.listeners.len() && j == i + 1 ==> (
            #[trigger] gateway.listeners[i]).1.made_of().config.port != (
            #[trigger] gateway.listeners[j]).1.made_of().config.port,
    ensures
        gateway.service().ports.len() == gateway.listeners.len(),
        gateway.container_ports().len() == gateway.listeners.len(),
        forall|i: int|
            0 <= i < gateway.listeners.len() ==> (#[trigger] gateway.service().ports[i]).port
                == gateway.listeners[i].1.made_of().config.port,
{
    let listeners = values(gateway.listeners);
    let ports = listeners.map_values(service_port(gateway.resource_key.name));
    let containers = listeners.map_values(container_port());
    law_deduped_keeps(ports, same_service_port());
    law_deduped_keeps(containers, same_container_port());
    assert forall|i: int, j: int| 0 <= i < j < ports.len() && j == i + 1 implies !#[trigger] same_service_port()(
        ports[i],
        ports[j],
    ) by {
        assert(gateway.listeners[i].1 == listeners[i]);
        assert(gateway.listeners[j].1 == listeners[j]);
    }
    assert forall|i: int, j: int|
        0 <= i < j < containers.len() && j == i + 1 implies !#[trigger] same_container_port()(
        containers[i],
        containers[j],
    ) by {
        assert(gateway.listeners[i].1 == listeners[i]);
        assert(gateway.listeners[j].1 == listeners[j]);
    }
}

/// The certificates of listeners are those of the HTTPS listeners that end TLS.
pub proof fn law_certificates_of_listeners(
    listeners: Seq<ListenerView>,
    certificate: CertificateView,
)
    ensures
        joined(listeners, https_certificates()).contains(certificate) <==> exists|
            l: int,
            certificates: Seq<CertificateView>,
        |
            0 <= l < listeners.len() && (#[trigger] listeners[l]) is Https
                && listeners[l].made_of().config.tls_type == Some(
                TlsTypeView::Terminate(certificates),
            ) && #[trigger] certificates.contains(certificate),
{
    joined_contains(listeners, https_certificates(), certificate);
    if joined(listeners, https_certificates()).contains(certificate) {
        let l = choose|l: int|
            0 <= l < listeners.len() && #[trigger] https_certificates()(listeners[l]).contains(
                certificate,
            );
        let certificates = listeners[l].made_of().config.tls_type->0->Terminate_0;
        assert(certificates.contains(certificate));
        assert(listeners[l] is Https);
    }
    if exists|l: int, certificates: Seq<CertificateView>|
        0 <= l < listeners.len() && (#[trigger] listeners[l]) is Https
            && listeners[l].made_of().config.tls_type == Some(TlsTypeView::Terminate(certificates))
            && #[trigger] certificates.contains(certificate) {
        let (l, certificates) = choose|l: int, certificates: Seq<CertificateView>|
            0 <= l < listeners.len() && (#[trigger] listeners[l]) is Https
                && listeners[l].made_of().config.tls_type == Some(
                TlsTypeView::Terminate(certificates),
            ) && #[trigger] certificates.contains(certificate);
        assert(https_certificates()(listeners[l]).contains(certificate));
    }
}

/// The volume of secrets has each of them: its certificate and its key become files that are named by
/// its name and its namespace.
pub proof fn law_secret_is_mounted(keys: Seq<ResourceKeyView>, key: ResourceKeyView)
    requires
        keys.contains(key),
    ensures
        secret_volume(keys).name == "envoy-secrets"@,
        secret_volume(keys).config_map is None,
        secret_volume(keys).projected is Some,
        exists|i: int|
            {
                let mounted = secret_volume(keys).projected->0;
                &&& 0 <= i < mounted.len()
                &&& (#[trigger] secret_volume(keys).projected->0[i]).name == key.name
                &&& mounted[i].items.len() == 2
                &&& mounted[i].items[0].key == "tls.crt"@
                &&& mounted[i].items[0].path == key.name + "_"@ + key.namespace + "_cert.pem"@
                &&& mounted[i].items[1].key == "tls.key"@
                &&& mounted[i].items[1].path == key.name + "_"@ + key.namespace + "_key.pem"@
            },
{
    let set = set_of::<ResourceKey>(keys);
    law_set_of::<ResourceKey>(keys);
    assert(keys.to_set().contains(key));
    assert(set.to_set().contains(key));
    let i = choose|i: int| 0 <= i < set.len() && set[i] == key;
    assert(secret_volume(keys).projected->0[i] == secret_files()(key));
}

/// The volume of secrets has no other secret.
pub proof fn law_only_secrets_are_mounted(keys: Seq<ResourceKeyView>, i: int)
    requires
        0 <= i < secret_volume(keys).projected->0.len(),
    ensures
        exists|k: int|
            0 <= k < keys.len() && (#[trigger] keys[k]).name == secret_volume(
                keys,
            ).projected->0[i].name,
{
    let set = set_of::<ResourceKey>(keys);
    law_set_of::<ResourceKey>(keys);
    assert(set.to_set().contains(set[i]));
    assert(keys.to_set().contains(set[i]));
    let k = choose|k: int| 0 <= k < keys.len() && keys[k] == set[i];
    assert(keys[k].name == secret_volume(keys).projected->0[i].name);
}

/// The volume of what Envoy starts with is that of the config map that is named for it, with its one
/// file.
pub proof fn law_bootstrap_is_mounted(gateway: GatewayView)
    ensures
        bootstrap_volume(gateway).name == "envoy-config"@,
        bootstrap_volume(gateway).projected is None,
        bootstrap_volume(gateway).config_map is Some,
        bootstrap_volume(gateway).config_map->0.name == gateway.resource_key.name
            + "-bootstrap-cm"@,
        bootstrap_volume(gateway).config_map->0.items is Some,
        bootstrap_volume(gateway).config_map->0.items->0.len() == 1,
        bootstrap_volume(gateway).config_map->0.items->0[0].key == "envoy-bootstrap.yaml"@,
        bootstrap_volume(gateway).config_map->0.items->0[0].path == "envoy-bootstrap.yaml"@,
{
}

/// The addresses of a service are those that its load balancer is reached at and that are given.
pub proof fn law_addresses_of_service(service: DeployedServiceView, host: HostTextView)
    ensures
        service.ingress is None ==> service.addresses().len() == 0,
        service.ingress matches Some(ingress) ==> (service.addresses().contains(host) <==> exists|
            i: int,
        | 0 <= i < ingress.len() && #[trigger] ingress[i] == Some(host)),
{
    if service.ingress is Some {
        let ingress = service.ingress->0;
        chosen_contains(ingress, given_address(), host);
        assert forall|i: int| 0 <= i < ingress.len() implies #[trigger] given_address()(ingress[i])
            == ingress[i] by {}
        if exists|i: int| 0 <= i < ingress.len() && #[trigger] ingress[i] == Some(host) {
            let i = choose|i: int| 0 <= i < ingress.len() && #[trigger] ingress[i] == Some(host);
            assert(given_address()(ingress[i]) == Some(host));
        }
    }
}

/// A gateway that was given the addresses of a service has those that it had and each IP address that an
/// address of the service spells, and no other. Nothing else of it changed.
pub proof fn law_gateway_gains_addresses(
    before: GatewayView,
    after: GatewayView,
    service: DeployedServiceView,
    address: GatewayAddressView,
)
    requires
        gained_addresses(before, after, service),
    ensures
        after.resource_key == before.resource_key,
        after.id == before.id,
        after.listeners == before.listeners,
        after.orphaned_routes == before.orphaned_routes,
        after.backend_type == before.backend_type,
        after.addresses.contains(address) <==> before.addresses.contains(address) || exists|i: int|
            0 <= i < service.addresses().len() && (#[trigger] service.addresses()[i]).octets is Some
                && address == GatewayAddressView::IPAddress(service.addresses()[i].octets->0),
{
    let hosts = service.addresses();
    let spelled = chosen(hosts, spelled_address());
    chosen_contains(hosts, spelled_address(), address);
    assert(after.addresses.to_set().contains(address) <==> before.addresses.to_set().contains(address)
        || spelled.to_set().contains(address));
    if spelled.contains(address) {
        let i = choose|i: int|
            0 <= i < hosts.len() && #[trigger] spelled_address()(hosts[i]) == Some(address);
        assert(service.addresses()[i].octets is Some);
    }
    if exists|i: int|
        0 <= i < service.addresses().len() && (#[trigger] service.addresses()[i]).octets is Some
            && address == GatewayAddressView::IPAddress(service.addresses()[i].octets->0) {
        let i = choose|i: int|
            0 <= i < service.addresses().len() && (#[trigger] service.addresses()[i]).octets is Some
                && address == GatewayAddressView::IPAddress(service.addresses()[i].octets->0);
        assert(spelled_address()(hosts[i]) == Some(address));
    }
}

/// What follows the deployment of a service that has an address is the answer with the gateway that has
/// its addresses, the gateway of the cluster and the class; else the addresses of that service are
/// waited for, with the change as it was.
pub proof fn law_follow_up(
    action: FollowUpView,
    context: ChangedContextView,
    service: DeployedServiceView,
)
    requires
        follows(action, context, service),
    ensures
        action is PollAddress <==> service.addresses().len() == 0,
        action matches FollowUpView::PollAddress { service: key, context: kept } ==> key
            == service.resource_key && kept == context,
        action matches FollowUpView::Respond(response) ==> {
            &&& response is ProcessedWithContext
            &&& response->kube_gateway == context.kube_gateway
            &&& response->gateway_class_name == context.gateway_class_name
            &&& response->gateway.resource_key == context.gateway.resource_key
            &&& response->gateway.listeners == context.gateway.listeners
        },
{
}

/// A version is a UUID under its one name.
pub proof fn law_version(annotations: Seq<(Seq<char>, Seq<char>)>)
    ensures
        versioned(Some(annotations)) <==> annotations.len() == 1 && annotations[0].0
            == "gateway-version"@ && uuid_of(annotations[0].1) is Some,
        !versioned(None),
{
}

} // verus!

//! The resources that Envoy is told of for a gateway.
use vstd::prelude::*;
use crate::backends::envoy::clusters::{
    check_listeners,
    clusters_by_name,
    generate_clusters,
    listener_fits,
};
use crate::backends::envoy::converters::SocketAddressFactory;
use crate::backends::envoy::resource_generator::{
    EnvoyListener,
    EnvoyListenerView,
    EnvoyVirtualHost,
    EnvoyVirtualHostView,
    ResourceGenerator,
    law_first_at_a_port,
    law_one_listener_at_a_port,
    mapped_listeners,
};
use crate::backends::envoy::resources::{
    DownstreamTlsContext,
    DownstreamTlsContextView,
    EnvoyCluster,
    EnvoyClusterView,
    HttpConnectionManager,
    HttpConnectionManagerView,
    ListenerResource,
    ListenerResourceView,
    VirtualHost,
    VirtualHostView,
};
use crate::common::address::SocketAddressView;
use crate::common::certificate::{Certificate, CertificateView};
use crate::common::gateway::{Gateway, GatewayView};
use crate::common::listener::{TlsType, TlsTypeView};
use crate::common::resource_key::{ResourceKey, ResourceKeyView};
use crate::lists::{
    all_list,
    append_list,
    choose_list,
    chosen,
    chosen_contains,
    dedup_list,
    deduped,
    each,
    join_list,
    joined,
    joined_contains,
    law_chosen_of_all,
    law_deduped_covers,
    law_deduped_keeps,
    map_list,
    no_items,
    one_item,
};
use crate::model::Model;
use crate::ordered::{OrderedMap, OrderedSet, keys, table_of_entry, values};
use crate::text::{cat, cat3};

verus! {

/// The name of a secret.
pub open spec fn secret_name(key: ResourceKeyView) -> Seq<char> {
    key.name + "_"@ + key.namespace
}

/// The name of the file of the certificate of a secret.
pub open spec fn certificate_name(key: ResourceKeyView) -> Seq<char> {
    secret_name(key) + "_cert.pem"@
}

/// The name of the file of the key of a secret.
pub open spec fn key_name(key: ResourceKeyView) -> Seq<char> {
    secret_name(key) + "_key.pem"@
}

/// The name of a secret.
pub fn create_secret_name(resource_key: &ResourceKey) -> (r: String)
    ensures
        r@ == secret_name(resource_key.deep_view()),
{
    cat3(resource_key.name.as_str(), "_", resource_key.namespace.as_str())
}

/// The name of the file of the certificate of a secret.
pub fn create_certificate_name(resource_key: &ResourceKey) -> (r: String)
    ensures
        r@ == certificate_name(resource_key.deep_view()),
{
    let name = create_secret_name(resource_key);
    cat(name.as_str(), "_cert.pem")
}

/// The name of the file of the key of a secret.
pub fn create_key_name(resource_key: &ResourceKey) -> (r: String)
    ensures
        r@ == key_name(resource_key.deep_view()),
{
    let name = create_secret_name(resource_key);
    cat(name.as_str(), "_key.pem")
}

/// The secret of a certificate that is resolved in the namespace of its gateway.
pub open spec fn resolved_secret() -> spec_fn(CertificateView) -> Option<ResourceKeyView> {
    |certificate: CertificateView|
        match certificate {
            CertificateView::ResolvedSameSpace(key) => Some(key),
            _ => None,
        }
}

/// The secret of a certificate that is resolved in the namespace of its gateway.
pub fn secret_of(certificate: &Certificate) -> (r: Option<ResourceKey>)
    ensures
        r.deep_view() == resolved_secret()(certificate.deep_view()),
{
    match certificate {
        Certificate::ResolvedSameSpace(key) => Some(key.dup()),
        _ => None,
    }
}

/// The name of a secret.
pub open spec fn named_secret() -> spec_fn(ResourceKeyView) -> Seq<char> {
    |key: ResourceKeyView| secret_name(key)
}

fn name_secret(key: &ResourceKey) -> (r: String)
    ensures
        r.deep_view() == named_secret()(key.deep_view()),
{
    create_secret_name(key)
}

/// The secrets that a listener ends TLS with.
pub open spec fn listener_secrets() -> spec_fn(EnvoyListenerView) -> Seq<ResourceKeyView> {
    |listener: EnvoyListenerView|
        match listener.tls_type {
            Some(TlsTypeView::Terminate(certificates)) => chosen(certificates, resolved_secret()),
            _ => Seq::empty(),
        }
}

/// How a listener speaks TLS, where it ends it.
pub open spec fn listener_tls(listener: EnvoyListenerView) -> Option<DownstreamTlsContextView> {
    if listener.tls_type matches Some(TlsTypeView::Terminate(_)) {
        Some(
            DownstreamTlsContextView {
                name: listener.name + "-downstream-tls-context"@,
                require_client_certificate: false,
                full_scan_certs_on_sni_mismatch: true,
                secrets: listener_secrets()(listener).map_values(named_secret()),
            },
        )
    } else {
        None
    }
}

/// A virtual host as Envoy is told of it: HTTP routes come before gRPC routes.
pub open spec fn told_host() -> spec_fn(EnvoyVirtualHostView) -> VirtualHostView {
    |host: EnvoyVirtualHostView|
        VirtualHostView {
            name: host.name,
            domains: host.effective_hostnames,
            routes: host.http_routes + host.grpc_routes,
        }
}

/// A listener as Envoy is told of it.
pub open spec fn told_listener() -> spec_fn(EnvoyListenerView) -> ListenerResourceView {
    |listener: EnvoyListenerView|
        ListenerResourceView {
            name: listener.name,
            address: SocketAddressView { address: "0.0.0.0"@, port: listener.port as u32 },
            listener_filters: seq![listener.name + "-tls-inspector"@],
            filter_name: listener.name + "-http-connection-manager"@,
            connection_manager: HttpConnectionManagerView {
                stat_prefix: listener.name,
                http_filters: seq![listener.name + "-http-connection-manager-route-filter"@],
                route_config_name: listener.name + "-route"@,
                virtual_hosts: values(listener.http_listener_map).map_values(told_host()),
                validate_clusters: false,
            },
            transport_socket: listener_tls(listener),
        }
}

fn tell_host(host: &&EnvoyVirtualHost) -> (r: VirtualHost)
    ensures
        r.deep_view() == told_host()(host.deep_view()),
{
    VirtualHost {
        name: host.name.dup(),
        domains: host.effective_hostnames.dup(),
        routes: append_list(host.http_routes.dup(), host.grpc_routes.dup()),
    }
}

/// The virtual hosts as Envoy is told of them.
pub fn generate_virtual_hosts_from_xds(virtual_hosts: &OrderedMap<String, EnvoyVirtualHost>) -> (r:
    Vec<VirtualHost>)
    ensures
        r.deep_view() == values(virtual_hosts.deep_view()).map_values(told_host()),
{
    let hosts = virtual_hosts.values();
    map_list(&hosts, tell_host, Ghost(told_host()))
}

fn list_secrets(listener: &&EnvoyListener) -> (r: Vec<ResourceKey>)
    ensures
        r.deep_view() == listener_secrets()(listener.deep_view()),
{
    match &listener.tls_type {
        Some(TlsType::Terminate(certificates)) => choose_list(
            certificates,
            secret_of,
            Ghost(resolved_secret()),
        ),
        _ => no_items(),
    }
}

fn speak_tls(listener: &EnvoyListener) -> (r: Option<DownstreamTlsContext>)
    ensures
        r.deep_view() == listener_tls(listener.deep_view()),
{
    if matches!(listener.tls_type, Some(TlsType::Terminate(_))) {
        let secrets = list_secrets(&listener);
        Some(
            DownstreamTlsContext {
                name: cat(listener.name.as_str(), "-downstream-tls-context"),
                require_client_certificate: false,
                full_scan_certs_on_sni_mismatch: true,
                secrets: map_list(&secrets, name_secret, Ghost(named_secret())),
            },
        )
    } else {
        None
    }
}

/// Whether a listener is at a port that can be.
pub open spec fn port_fits() -> spec_fn(EnvoyListenerView) -> bool {
    |listener: EnvoyListenerView| listener.port >= 0
}

/// A listener as Envoy is told of it.
pub fn create_listener(listener: &EnvoyListener) -> (r: ListenerResource)
    requires
        listener.port >= 0,
    ensures
        r.deep_view() == told_listener()(listener.deep_view()),
        r.name@ == listener.name@,
        r.address.address@ == "0.0.0.0"@,
        r.address.port == listener.port,
        match listener.tls_type.deep_view() {
            Some(TlsTypeView::Terminate(certificates)) => {
                &&& r.transport_socket is Some
                &&& forall|key: ResourceKeyView| #[trigger]
                    certificates.contains(CertificateView::ResolvedSameSpace(key))
                        ==> r.transport_socket->0.secrets.deep_view().contains(
                        key.name + "_"@ + key.namespace,
                    )
            },
            _ => r.transport_socket is None,
        },
{
    proof {
        law_listener_ends_tls(listener.deep_view());
        law_listener_serves_its_hosts(listener.deep_view());
        if let Some(TlsTypeView::Terminate(certificates)) = listener.tls_type.deep_view() {
            law_listener_names_secrets(listener.deep_view(), certificates);
        }
    }
    let name = listener.name.as_str();
    ListenerResource {
        name: listener.name.dup(),
        address: SocketAddressFactory::from(listener),
        listener_filters: one_item(cat(name, "-tls-inspector")),
        filter_name: cat(name, "-http-connection-manager"),
        connection_manager: HttpConnectionManager {
            stat_prefix: listener.name.dup(),
            http_filters: one_item(cat(name, "-http-connection-manager-route-filter")),
            route_config_name: cat(name, "-route"),
            virtual_hosts: generate_virtual_hosts_from_xds(&listener.http_listener_map),
            validate_clusters: false,
        },
        transport_socket: speak_tls(listener),
    }
}

/// What Envoy is told of, and the secrets that it needs.
#[derive(Debug, PartialEq, Eq)]
pub struct Resources {
    pub listeners: Vec<ListenerResource>,
    pub clusters: Vec<EnvoyCluster>,
    pub secrets: Vec<ResourceKey>,
}

/// What a [`Resources`] holds.
#[verifier::ext_equal]
pub struct ResourcesView {
    pub listeners: Seq<ListenerResourceView>,
    pub clusters: Seq<EnvoyClusterView>,
    pub secrets: Seq<ResourceKeyView>,
}

impl DeepView for Resources {
    type V = ResourcesView;

    open spec fn deep_view(&self) -> ResourcesView {
        ResourcesView {
            listeners: self.listeners.deep_view(),
            clusters: self.clusters.deep_view(),
            secrets: self.secrets.deep_view(),
        }
    }
}

impl Model for Resources {
    fn dup(&self) -> (r: Self) {
        Resources {
            listeners: self.listeners.dup(),
            clusters: self.clusters.dup(),
            secrets: self.secrets.dup(),
        }
    }

    fn same(&self, other: &Self) -> (r: bool) {
        self.listeners.same(&other.listeners)
            && self.clusters.same(&other.clusters)
            && self.secrets.same(&other.secrets)
    }
}

/// Whether two secrets have one name.
pub open spec fn same_name() -> spec_fn(ResourceKeyView, ResourceKeyView) -> bool {
    |a: ResourceKeyView, b: ResourceKeyView| a.name == b.name
}

impl ResourcesView {
    /// What Envoy is told of some listeners. Of secrets that follow each other under one name the
    /// first is kept.
    pub open spec fn of(listeners: Seq<EnvoyListenerView>) -> ResourcesView {
        ResourcesView {
            listeners: listeners.map_values(told_listener()),
            clusters: values(clusters_by_name(listeners, false)),
            secrets: deduped(joined(listeners, listener_secrets()), same_name()),
        }
    }
}

impl GatewayView {
    /// The listeners that the gateway is made into.
    pub open spec fn envoy_listeners(
        self,
        matches: Seq<(Seq<char>, Seq<Seq<char>>)>,
    ) -> Seq<EnvoyListenerView> {
        values(mapped_listeners(self.resource_key.name, values(self.listeners), matches))
    }

    /// Whether the listeners of the gateway, and the backends that get clusters, are at ports that
    /// can be.
    pub open spec fn ports_fit(self, matches: Seq<(Seq<char>, Seq<Seq<char>>)>) -> bool {
        each(self.envoy_listeners(matches), port_fits()) && each(
            self.envoy_listeners(matches),
            listener_fits(),
        )
    }
}

/// Whether the listeners of a gateway, and the backends that get clusters, are at ports that can be.
pub fn ports_fit(gateway: &Gateway, matches: &OrderedSet<(String, Vec<String>)>) -> (r: bool)
    ensures
        r == gateway.deep_view().ports_fit(matches.deep_view()),
{
    let mut generator = ResourceGenerator::new(gateway);
    let made = generator.generate_envoy_listeners(matches);
    let listeners = made.values();
    let first = all_list(
        &listeners,
        |listener: &&EnvoyListener| -> (y: bool)
            ensures y == port_fits()(listener.deep_view())
        { listener.port >= 0 },
        Ghost(port_fits()),
    );
    let second = check_listeners(&listeners);
    first && second
}

/// What Envoy is told of a gateway. `matches` holds the pairs of a hostname of a virtual host and the
/// hostnames of a rule that go together.
pub fn create_resources(gateway: &Gateway, matches: &OrderedSet<(String, Vec<String>)>) -> (r:
    Resources)
    requires
        gateway.deep_view().ports_fit(matches.deep_view()),
    ensures
        r.deep_view() == ResourcesView::of(
            gateway.deep_view().envoy_listeners(matches.deep_view()),
        ),
{
    let mut generator = ResourceGenerator::new(gateway);
    let made = generator.generate_envoy_listeners(matches);
    let listeners = made.values();
    let told = map_list(
        &listeners,
        |listener: &&EnvoyListener| -> (y: ListenerResource)
            requires port_fits()(listener.deep_view())
            ensures y.deep_view() == told_listener()(listener.deep_view())
        { create_listener(*listener) },
        Ghost(told_listener()),
    );
    let secrets = join_list(&listeners, list_secrets, Ghost(listener_secrets()));
    Resources {
        listeners: told,
        clusters: generate_clusters(&listeners),
        secrets: dedup_list(
            &secrets,
            |a: &ResourceKey, b: &ResourceKey| -> (y: bool)
                ensures y == same_name()(a.deep_view(), b.deep_view())
            { a.name.same(&b.name) },
            Ghost(same_name()),
        ),
    }
}

/// A listener ends TLS where its listener of the gateway does, with a context under its own name; where
/// that leaves TLS alone or lets it through, it does not.
pub proof fn law_listener_ends_tls(listener: EnvoyListenerView)
    ensures
        listener.tls_type is None ==> told_listener()(listener).transport_socket is None,
        listener.tls_type == Some(TlsTypeView::Passthrough) ==> told_listener()(
            listener,
        ).transport_socket is None,
        listener.tls_type is Some && listener.tls_type->0 is Terminate ==> {
            let socket = told_listener()(listener).transport_socket;
            &&& socket is Some
            &&& socket->0.name == listener.name + "-downstream-tls-context"@
            &&& !socket->0.require_client_certificate
            &&& socket->0.full_scan_certs_on_sni_mismatch
        },
{
}

/// A listener that ends TLS names the secret of every certificate that is resolved in the namespace of
/// the gateway: in the order of the certificates, where all are.
pub proof fn law_listener_names_secrets(
    listener: EnvoyListenerView,
    certificates: Seq<CertificateView>,
)
    requires
        listener.tls_type == Some(TlsTypeView::Terminate(certificates)),
    ensures
        told_listener()(listener).transport_socket is Some,
        forall|key: ResourceKeyView| #[trigger]
            certificates.contains(CertificateView::ResolvedSameSpace(key)) ==> told_listener()(
                listener,
            ).transport_socket->0.secrets.contains(key.name + "_"@ + key.namespace),
        (forall|i: int|
            0 <= i < certificates.len() ==> #[trigger] certificates[i] is ResolvedSameSpace)
            ==> told_listener()(listener).transport_socket->0.secrets == Seq::new(
            certificates.len(),
            |i: int| certificates[i].key().name + "_"@ + certificates[i].key().namespace,
        ),
{
    let keys = chosen(certificates, resolved_secret());
    let secrets = told_listener()(listener).transport_socket->0.secrets;
    assert(secrets =~= keys.map_values(named_secret()));
    assert forall|key: ResourceKeyView| #[trigger]
        certificates.contains(CertificateView::ResolvedSameSpace(key)) implies secrets.contains(
        key.name + "_"@ + key.namespace,
    ) by {
        let i = choose|i: int|
            0 <= i < certificates.len() && certificates[i] == CertificateView::ResolvedSameSpace(key);
        assert(resolved_secret()(certificates[i]) == Some(key));
        chosen_contains(certificates, resolved_secret(), key);
        let j = choose|j: int| 0 <= j < keys.len() && keys[j] == key;
        assert(secrets[j] == named_secret()(key));
    }
    if forall|i: int| 0 <= i < certificates.len() ==> #[trigger] certificates[i] is ResolvedSameSpace {
        assert forall|i: int| 0 <= i < certificates.len() implies #[trigger] resolved_secret()(
            certificates[i],
        ) is Some by {
            assert(certificates[i] is ResolvedSameSpace);
        }
        law_chosen_of_all(certificates, resolved_secret());
        let named = Seq::new(
            certificates.len(),
            |i: int| certificates[i].key().name + "_"@ + certificates[i].key().namespace,
        );
        assert forall|i: int| 0 <= i < secrets.len() implies #[trigger] secrets[i] == named[i] by {
            assert(certificates[i] is ResolvedSameSpace);
            assert(keys[i] == resolved_secret()(certificates[i])->0);
        }
        assert(secrets =~= named);
    }
}

/// A listener that ends TLS names no secret but those of certificates that are resolved in the
/// namespace of the gateway.
pub proof fn law_listener_names_no_other(
    listener: EnvoyListenerView,
    certificates: Seq<CertificateView>,
    i: int,
)
    requires
        listener.tls_type == Some(TlsTypeView::Terminate(certificates)),
        0 <= i < told_listener()(listener).transport_socket->0.secrets.len(),
    ensures
        exists|key: ResourceKeyView|
            told_listener()(listener).transport_socket->0.secrets[i] == key.name + "_"@
                + key.namespace && #[trigger] certificates.contains(
                CertificateView::ResolvedSameSpace(key),
            ),
{
    let keys = chosen(certificates, resolved_secret());
    let key = keys[i];
    assert(keys.contains(key));
    chosen_contains(certificates, resolved_secret(), key);
    let j = choose|j: int|
        0 <= j < certificates.len() && #[trigger] resolved_secret()(certificates[j]) == Some(key);
    assert(certificates[j] == CertificateView::ResolvedSameSpace(key));
    assert(certificates.contains(CertificateView::ResolvedSameSpace(key)));
    assert(keys.map_values(named_secret())[i] == named_secret()(key));
}

/// A listener listens at its port on every address, under its name, with one virtual host for each of
/// its virtual hosts: with its name and domains, and with all its HTTP routes before its gRPC routes.
pub proof fn law_listener_serves_its_hosts(listener: EnvoyListenerView)
    requires
        listener.port >= 0,
    ensures
        told_listener()(listener).name == listener.name,
        told_listener()(listener).address.address == "0.0.0.0"@,
        told_listener()(listener).address.port == listener.port,
        told_listener()(listener).listener_filters == seq![listener.name + "-tls-inspector"@],
        told_listener()(listener).filter_name == listener.name + "-http-connection-manager"@,
        told_listener()(listener).connection_manager.stat_prefix == listener.name,
        told_listener()(listener).connection_manager.http_filters == seq![
            listener.name + "-http-connection-manager-route-filter"@,
        ],
        told_listener()(listener).connection_manager.route_config_name == listener.name + "-route"@,
        !told_listener()(listener).connection_manager.validate_clusters,
        told_listener()(listener).connection_manager.virtual_hosts.len()
            == listener.http_listener_map.len(),
        forall|i: int|
            0 <= i < listener.http_listener_map.len() ==> {
                let host = listener.http_listener_map[i].1;
                let told = #[trigger] told_listener()(listener).connection_manager.virtual_hosts[i];
                &&& told.name == host.name
                &&& told.domains == host.effective_hostnames
                &&& told.routes.len() == host.http_routes.len() + host.grpc_routes.len()
                &&& forall|k: int|
                    0 <= k < host.http_routes.len() ==> #[trigger] told.routes[k]
                        == host.http_routes[k]
                &&& forall|k: int|
                    0 <= k < host.grpc_routes.len() ==> told.routes[host.http_routes.len() + k]
                        == #[trigger] host.grpc_routes[k]
            },
{
    assert forall|i: int| 0 <= i < listener.http_listener_map.len() implies values(
        listener.http_listener_map,
    )[i] == listener.http_listener_map[i].1 by {}
}

/// The names of the files of a secret, and of the secret, are made of its name and its namespace.
pub proof fn law_secret_names(key: ResourceKeyView)
    ensures
        named_secret()(key) == key.name + "_"@ + key.namespace,
        certificate_name(key) == key.name + "_"@ + key.namespace + "_cert.pem"@,
        key_name(key) == key.name + "_"@ + key.namespace + "_key.pem"@,
{
}

/// Each secret that Envoy needs is that of a resolved certificate of a listener that ends TLS.
pub proof fn law_secret_is_needed(listeners: Seq<EnvoyListenerView>, j: int)
    requires
        0 <= j < ResourcesView::of(listeners).secrets.len(),
    ensures
        exists|i: int, certificates: Seq<CertificateView>|
            0 <= i < listeners.len() && (#[trigger] listeners[i]).tls_type == Some(
                TlsTypeView::Terminate(certificates),
            ) && #[trigger] certificates.contains(
                CertificateView::ResolvedSameSpace(ResourcesView::of(listeners).secrets[j]),
            ),
{
    let all = joined(listeners, listener_secrets());
    let key = ResourcesView::of(listeners).secrets[j];
    law_deduped_keeps(all, same_name());
    assert(all.contains(key));
    joined_contains(listeners, listener_secrets(), key);
    let i = choose|i: int|
        0 <= i < listeners.len() && #[trigger] listener_secrets()(listeners[i]).contains(key);
    let certificates = listeners[i].tls_type->0->Terminate_0;
    chosen_contains(certificates, resolved_secret(), key);
    let c = choose|c: int|
        0 <= c < certificates.len() && #[trigger] resolved_secret()(certificates[c]) == Some(key);
    assert(certificates[c] == CertificateView::ResolvedSameSpace(key));
    assert(certificates.contains(CertificateView::ResolvedSameSpace(key)));
}

/// The secret of each resolved certificate of a listener that ends TLS, or one with its name, is
/// among those that Envoy needs.
pub proof fn law_needed_secret_is_there(
    listeners: Seq<EnvoyListenerView>,
    i: int,
    certificates: Seq<CertificateView>,
    key: ResourceKeyView,
)
    requires
        0 <= i < listeners.len(),
        listeners[i].tls_type == Some(TlsTypeView::Terminate(certificates)),
        certificates.contains(CertificateView::ResolvedSameSpace(key)),
    ensures
        exists|j: int|
            0 <= j < ResourcesView::of(listeners).secrets.len() && (#[trigger] ResourcesView::of(
                listeners,
            ).secrets[j]).name == key.name,
{
    let all = joined(listeners, listener_secrets());
    let c = choose|c: int|
        0 <= c < certificates.len() && certificates[c] == CertificateView::ResolvedSameSpace(key);
    assert(resolved_secret()(certificates[c]) == Some(key));
    chosen_contains(certificates, resolved_secret(), key);
    assert(listener_secrets()(listeners[i]).contains(key));
    joined_contains(listeners, listener_secrets(), key);
    let k = choose|k: int| 0 <= k < all.len() && all[k] == key;
    law_deduped_covers(all, same_name(), k);
    let j = choose|j: int|
        0 <= j < deduped(all, same_name()).len() && (#[trigger] deduped(all, same_name())[j] == all[k]
            || same_name()(deduped(all, same_name())[j], all[k]));
    assert(ResourcesView::of(listeners).secrets[j].name == key.name);
}

/// Of the listeners of a gateway for HTTP and TCP at one port the first decides on TLS: where it ends
/// TLS, what Envoy is told of at the port does, with the secrets of its certificates; else it does not.
pub proof fn law_port_ends_tls(
    gateway: GatewayView,
    matches: Seq<(Seq<char>, Seq<Seq<char>>)>,
    i: int,
)
    requires
        gateway.ports_fit(matches),
        0 <= i < gateway.listeners.len(),
        gateway.listeners[i].1 is Http || gateway.listeners[i].1 is Https,
        forall|j: int|
            0 <= j < i && (#[trigger] gateway.listeners[j]).1.made_of().config.port
                == gateway.listeners[i].1.made_of().config.port ==> gateway.listeners[j].1 is Tls
                || gateway.listeners[j].1 is Udp,
    ensures
        exists|k: int|
            #![trigger ResourcesView::of(gateway.envoy_listeners(matches)).listeners[k]]
            {
                let told = ResourcesView::of(gateway.envoy_listeners(matches)).listeners;
                let config = gateway.listeners[i].1.made_of().config;
                &&& 0 <= k < told.len()
                &&& told[k].address.port == config.port
                &&& told[k].name == gateway.resource_key.name
                &&& match config.tls_type {
                    Some(TlsTypeView::Terminate(certificates)) => {
                        &&& told[k].transport_socket is Some
                        &&& forall|key: ResourceKeyView| #[trigger]
                            certificates.contains(CertificateView::ResolvedSameSpace(key))
                                ==> told[k].transport_socket->0.secrets.contains(
                                key.name + "_"@ + key.namespace,
                            )
                    },
                    _ => told[k].transport_socket is None,
                }
            },
{
    let listeners = values(gateway.listeners);
    let name = gateway.resource_key.name;
    let made = mapped_listeners(name, listeners, matches);
    let config = gateway.listeners[i].1.made_of().config;
    assert(listeners[i] == gateway.listeners[i].1);
    assert forall|j: int| 0 <= j < i && (#[trigger] listeners[j]).made_of().config.port
        == listeners[i].made_of().config.port implies listeners[j] is Tls || listeners[j] is Udp by {
        assert(gateway.listeners[j].1 == listeners[j]);
    }
    law_first_at_a_port(name, listeners, matches, i);
    let k = choose|k: int| 0 <= k < made.len() && keys(made)[k] == config.port;
    assert(keys(made).contains(config.port));
    law_one_listener_at_a_port(name, listeners, matches);
    table_of_entry::<i32, EnvoyListenerView>(made, k);
    let listener = made[k].1;
    let all = gateway.envoy_listeners(matches);
    assert(all[k] == listener);
    assert(port_fits()(all[k]));
    law_listener_ends_tls(listener);
    if let Some(TlsTypeView::Terminate(certificates)) = config.tls_type {
        law_listener_names_secrets(listener, certificates);
    }
    law_listener_serves_its_hosts(listener);
    let told = ResourcesView::of(all).listeners;
    assert(told[k] == told_listener()(listener));
}

} // verus!

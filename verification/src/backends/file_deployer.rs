//! How a gateway that reads its resources from files is deployed, and what is answered where it
//! changes.
use vstd::prelude::*;
use crate::backends::deployment::{
    ConfigMapPlan,
    ConfigMapPlanView,
    ConfigMapVolume,
    ConfigMapVolumeView,
    DeployedService,
    DeploymentPlan,
    DeploymentPlanView,
    ServiceAccountPlan,
    ServiceAccountPlanView,
    ServicePlan,
    ServicePlanView,
    Volume,
    VolumeView,
    bootstrap_volume,
    collect_certificates,
    config_map_names,
    create_bootstrap_volume,
    create_container_ports,
    create_labels,
    create_secret_volume,
    create_service,
    create_service_account,
    gained_addresses,
    https_certificates,
    law_certificates_of_listeners,
    law_secret_is_mounted,
    one_entry,
    secret_volume,
    update_addresses,
};
use crate::backends::xds_generator::{RdsData, RdsDataView, XdsData, XdsDataView};
use crate::common::certificate::{Certificate, CertificateView};
use crate::common::contexts::{GatewayResponse, GatewayResponseView};
use crate::common::gateway::{Gateway, GatewayView};
use crate::common::listener::TlsTypeView;
use crate::common::resource_key::{ResourceKey, ResourceKeyView};
use crate::lists::{append_list, joined, map_list, no_items, one_item};
use crate::model::Model;
use crate::ordered::{
    OrderedMap,
    increasing,
    keys,
    law_stored,
    law_stored_keys,
    stored,
    table,
    values,
};
use crate::text::cat;

verus! {

/// The file of routes, under its name.
pub open spec fn route_file() -> spec_fn(RdsDataView) -> (Seq<char>, Seq<char>) {
    |data: RdsDataView| (data.route_name + ".yaml"@, data.rds_content)
}

fn name_file(data: &RdsData) -> (r: (String, String))
    ensures
        r.deep_view() == route_file()(data.deep_view()),
{
    (cat(data.route_name.as_str(), ".yaml"), data.rds_content.dup())
}

/// The files by their names: the clusters, the listeners, then the routes.
pub open spec fn files_of(
    lds: Seq<char>,
    routes: Seq<RdsDataView>,
    cds: Seq<char>,
) -> Seq<(Seq<char>, Seq<char>)> {
    stored::<String, Seq<char>>(
        seq![("cds.yaml"@, cds), ("lds.yaml"@, lds)] + routes.map_values(route_file()),
    )
}

/// The config map of the files.
pub fn create_envoy_xds_config_map(
    name: &str,
    gateway: &Gateway,
    lds: String,
    routes: &Vec<RdsData>,
    cds: String,
) -> (r: ConfigMapPlan)
    ensures
        r.deep_view() == (ConfigMapPlanView {
            name: name@,
            namespace: gateway.deep_view().resource_key.namespace,
            annotations: None,
            data: files_of(lds@, routes.deep_view(), cds@),
        }),
{
    let first = ("cds.yaml".to_owned(), cds);
    let second = ("lds.yaml".to_owned(), lds);
    let start = append_list(one_item(first), one_item(second));
    let more = map_list(routes, name_file, Ghost(route_file()));
    let files = append_list(start, more);
    assert(files.deep_view() =~= seq![("cds.yaml"@, cds@), ("lds.yaml"@, lds@)]
        + routes.deep_view().map_values(route_file()));
    ConfigMapPlan {
        name: name.to_owned(),
        namespace: gateway.namespace().to_owned(),
        annotations: None,
        data: OrderedMap::gather(&files),
    }
}

/// The config map of what Envoy starts with.
pub fn create_envoy_bootstrap_config_map(name: &str, gateway: &Gateway, content: String) -> (r:
    ConfigMapPlan)
    ensures
        r.deep_view() == (ConfigMapPlanView {
            name: name@,
            namespace: gateway.deep_view().resource_key.namespace,
            annotations: None,
            data: seq![("envoy-bootstrap.yaml"@, content@)],
        }),
{
    ConfigMapPlan {
        name: name.to_owned(),
        namespace: gateway.namespace().to_owned(),
        annotations: None,
        data: one_entry("envoy-bootstrap.yaml", content),
    }
}

/// The secret of a certificate.
pub open spec fn certificate_secret() -> spec_fn(CertificateView) -> ResourceKeyView {
    |certificate: CertificateView| certificate.key()
}

fn secret_key(certificate: &Certificate) -> (r: ResourceKey)
    ensures
        r.deep_view() == certificate_secret()(certificate.deep_view()),
{
    certificate.resouce_key().dup()
}

/// The volume of the files.
pub open spec fn files_volume(gateway: GatewayView) -> VolumeView {
    VolumeView {
        name: "envoy-xds"@,
        config_map: Some(
            ConfigMapVolumeView { name: gateway.resource_key.name + "-xds-cm"@, items: None },
        ),
        projected: None,
    }
}

/// The deployment of a gateway.
pub open spec fn deployment_of(gateway: GatewayView) -> DeploymentPlanView {
    DeploymentPlanView {
        name: gateway.resource_key.name,
        namespace: gateway.resource_key.namespace,
        annotations: None,
        labels: gateway.app_label(),
        replicas: 2,
        ports: gateway.container_ports(),
        volumes: seq![
            bootstrap_volume(gateway),
            files_volume(gateway),
            secret_volume(
                joined(values(gateway.listeners), https_certificates()).map_values(
                    certificate_secret(),
                ),
            ),
        ],
    }
}

/// The deployment of a gateway.
pub fn create_deployment(gateway: &Gateway) -> (r: DeploymentPlan)
    ensures
        r.deep_view() == deployment_of(gateway.deep_view()),
{
    let mut labels = create_labels(gateway);
    labels.insert("app".to_owned(), gateway.name().to_owned());
    assert(labels.deep_view() =~= gateway.deep_view().app_label());
    let listeners = gateway.listeners();
    let certificates = collect_certificates(&listeners);
    let secrets = map_list(&certificates, secret_key, Ghost(certificate_secret()));
    let (xds, _) = config_map_names(gateway);
    let mut volumes: Vec<Volume> = Vec::new();
    volumes.push(create_bootstrap_volume(gateway));
    volumes.push(
        Volume {
            name: "envoy-xds".to_owned(),
            config_map: Some(ConfigMapVolume { name: xds, items: None }),
            projected: None,
        },
    );
    volumes.push(create_secret_volume(&secrets));
    assert(volumes.deep_view() =~= deployment_of(gateway.deep_view()).volumes);
    DeploymentPlan {
        name: gateway.name().to_owned(),
        namespace: gateway.namespace().to_owned(),
        annotations: None,
        labels,
        replicas: 2,
        ports: create_container_ports(gateway),
        volumes,
    }
}

/// All that is deployed for a gateway, in the order in which it is.
#[derive(Debug, PartialEq, Eq)]
pub struct FileDeployPlan {
    pub config_maps: Vec<ConfigMapPlan>,
    pub deployment: DeploymentPlan,
    pub service: ServicePlan,
    pub service_account: ServiceAccountPlan,
}

/// What a [`FileDeployPlan`] holds.
#[verifier::ext_equal]
pub struct FileDeployPlanView {
    pub config_maps: Seq<ConfigMapPlanView>,
    pub deployment: DeploymentPlanView,
    pub service: ServicePlanView,
    pub service_account: ServiceAccountPlanView,
}

impl DeepView for FileDeployPlan {
    type V = FileDeployPlanView;

    open spec fn deep_view(&self) -> FileDeployPlanView {
        FileDeployPlanView {
            config_maps: self.config_maps.deep_view(),
            deployment: self.deployment.deep_view(),
            service: self.service.deep_view(),
            service_account: self.service_account.deep_view(),
        }
    }
}

impl Model for FileDeployPlan {
    fn dup(&self) -> (r: Self) {
        FileDeployPlan {
            config_maps: self.config_maps.dup(),
            deployment: self.deployment.dup(),
            service: self.service.dup(),
            service_account: self.service_account.dup(),
        }
    }

    fn same(&self, other: &Self) -> (r: bool) {
        self.config_maps.same(&other.config_maps)
            && self.deployment.same(&other.deployment)
            && self.service.same(&other.service)
            && self.service_account.same(&other.service_account)
    }
}

/// What is deployed for a gateway. There are config maps only where the files were made.
pub open spec fn plan_of(
    gateway: GatewayView,
    files: Option<(XdsDataView, Seq<char>)>,
) -> FileDeployPlanView {
    FileDeployPlanView {
        config_maps: match files {
            Some((data, bootstrap)) => seq![
                ConfigMapPlanView {
                    name: gateway.resource_key.name + "-xds-cm"@,
                    namespace: gateway.resource_key.namespace,
                    annotations: None,
                    data: files_of(data.lds_content, data.rds_content, data.cds_content),
                },
                ConfigMapPlanView {
                    name: gateway.resource_key.name + "-bootstrap-cm"@,
                    namespace: gateway.resource_key.namespace,
                    annotations: None,
                    data: seq![("envoy-bootstrap.yaml"@, bootstrap)],
                },
            ],
            None => Seq::empty(),
        },
        deployment: deployment_of(gateway),
        service: gateway.service(),
        service_account: gateway.service_account(),
    }
}

/// What is deployed for a gateway, with the files and with what Envoy starts with where they were made.
pub fn deploy_envoy(gateway: &Gateway, files: Option<(XdsData, String)>) -> (r: FileDeployPlan)
    ensures
        r.deep_view() == plan_of(gateway.deep_view(), files.deep_view()),
{
    let config_maps = match files {
        Some((data, bootstrap)) => {
            let (xds_name, bootstrap_name) = config_map_names(gateway);
            let first = create_envoy_xds_config_map(
                xds_name.as_str(),
                gateway,
                data.lds_content,
                &data.rds_content,
                data.cds_content,
            );
            let second = create_envoy_bootstrap_config_map(
                bootstrap_name.as_str(),
                gateway,
                bootstrap,
            );
            let both = append_list(one_item(first), one_item(second));
            assert(both.deep_view() =~= seq![first.deep_view(), second.deep_view()]);
            both
        },
        None => no_items(),
    };
    FileDeployPlan {
        config_maps,
        deployment: create_deployment(gateway),
        service: create_service(gateway),
        service_account: create_service_account(gateway),
    }
}

/// What a change of a gateway is answered: the gateway with the addresses of its service, or that it
/// was not deployed.
pub fn deployed(gateway: Gateway, service: Option<DeployedService>) -> (r: GatewayResponse)
    ensures
        match service {
            Some(found) => r is GatewayProcessed && if found.deep_view().addresses().len() > 0 {
                gained_addresses(
                    gateway.deep_view(),
                    r->GatewayProcessed_0.deep_view(),
                    found.deep_view(),
                )
            } else {
                r->GatewayProcessed_0 == gateway
            },
            None => r is GatewayProcessingError,
        },
{
    match service {
        Some(found) => {
            let mut gateway = gateway;
            let _ = update_addresses(&mut gateway, &found);
            GatewayResponse::GatewayProcessed(gateway)
        },
        None => GatewayResponse::GatewayProcessingError,
    }
}

/// What the deletion of a gateway is answered.
pub fn deleted() -> (r: GatewayResponse)
    ensures
        r.deep_view() == GatewayResponseView::GatewayDeleted(Seq::empty()),
{
    GatewayResponse::GatewayDeleted(no_items())
}

/// The files are the clusters, the listeners and, for each route that has a name of its own, its
/// routes, each under its name.
pub proof fn law_files_are_held(
    lds: Seq<char>,
    routes: Seq<RdsDataView>,
    cds: Seq<char>,
    i: int,
)
    requires
        0 <= i < routes.len(),
        forall|j: int|
            i < j < routes.len() ==> (#[trigger] routes[j]).route_name + ".yaml"@
                != routes[i].route_name + ".yaml"@,
    ensures
        table(files_of(lds, routes, cds)).contains_key(routes[i].route_name + ".yaml"@),
        table(files_of(lds, routes, cds))[routes[i].route_name + ".yaml"@] == routes[i].rds_content,
{
    let pairs = seq![("cds.yaml"@, cds), ("lds.yaml"@, lds)] + routes.map_values(route_file());
    assert(pairs[i + 2] == route_file()(routes[i]));
    assert forall|j: int| i + 2 < j < pairs.len() implies (#[trigger] pairs[j]).0 != pairs[i + 2].0 by {
        assert(pairs[j] == route_file()(routes[j - 2]));
        assert(routes[j - 2].route_name + ".yaml"@ != routes[i].route_name + ".yaml"@);
    }
    law_stored::<String, Seq<char>>(pairs, i + 2);
}

/// The clusters and the listeners are held under their names, unless a route has the same.
pub proof fn law_main_files_are_held(lds: Seq<char>, routes: Seq<RdsDataView>, cds: Seq<char>)
    requires
        forall|j: int|
            0 <= j < routes.len() ==> (#[trigger] routes[j]).route_name + ".yaml"@ != "cds.yaml"@
                && routes[j].route_name + ".yaml"@ != "lds.yaml"@,
    ensures
        table(files_of(lds, routes, cds)).contains_key("cds.yaml"@),
        table(files_of(lds, routes, cds))["cds.yaml"@] == cds,
        table(files_of(lds, routes, cds)).contains_key("lds.yaml"@),
        table(files_of(lds, routes, cds))["lds.yaml"@] == lds,
        increasing::<String>(keys(files_of(lds, routes, cds))),
{
    let pairs = seq![("cds.yaml"@, cds), ("lds.yaml"@, lds)] + routes.map_values(route_file());
    reveal_strlit("cds.yaml");
    reveal_strlit("lds.yaml");
    assert("cds.yaml"@[0] != "lds.yaml"@[0]);
    assert(pairs[0] == ("cds.yaml"@, cds));
    assert(pairs[1] == ("lds.yaml"@, lds));
    assert forall|j: int| 1 < j < pairs.len() implies (#[trigger] pairs[j]).0 != "cds.yaml"@
        && pairs[j].0 != "lds.yaml"@ by {
        assert(pairs[j] == route_file()(routes[j - 2]));
        assert(routes[j - 2].route_name + ".yaml"@ != "cds.yaml"@);
    }
    law_stored::<String, Seq<char>>(pairs, 0);
    law_stored::<String, Seq<char>>(pairs, 1);
    law_stored_keys::<String, Seq<char>>(pairs);
}

/// The deployment of a gateway has its name and namespace, two pods that bear the label that its service
/// selects, the ports of its listeners, and as volumes what it starts with, its files and its secrets.
pub proof fn law_deployment(gateway: GatewayView)
    ensures
        ({
            let plan = deployment_of(gateway);
            &&& plan.name == gateway.resource_key.name
            &&& plan.namespace == gateway.resource_key.namespace
            &&& plan.annotations is None
            &&& plan.labels == gateway.service().selector
            &&& plan.replicas == 2
            &&& plan.ports == gateway.container_ports()
            &&& plan.volumes.len() == 3
            &&& plan.volumes[0] == bootstrap_volume(gateway)
            &&& plan.volumes[1].name == "envoy-xds"@
            &&& plan.volumes[1].config_map is Some
            &&& plan.volumes[1].config_map->0.name == gateway.resource_key.name + "-xds-cm"@
            &&& plan.volumes[1].config_map->0.items is None
            &&& plan.volumes[1].projected is None
            &&& plan.volumes[2].name == "envoy-secrets"@
        }),
{
}

/// The pods of a gateway have the secret of every certificate of its HTTPS listeners that end TLS.
pub proof fn law_pods_have_secrets(
    gateway: GatewayView,
    l: int,
    certificates: Seq<CertificateView>,
    certificate: CertificateView,
)
    requires
        0 <= l < gateway.listeners.len(),
        gateway.listeners[l].1 is Https,
        gateway.listeners[l].1.made_of().config.tls_type == Some(TlsTypeView::Terminate(certificates)),
        certificates.contains(certificate),
    ensures
        exists|i: int|
            0 <= i < deployment_of(gateway).volumes[2].projected->0.len() && (
            #[trigger] deployment_of(gateway).volumes[2].projected->0[i]).name
                == certificate.key().name,
{
    let listeners = values(gateway.listeners);
    assert(listeners[l] == gateway.listeners[l].1);
    law_certificates_of_listeners(listeners, certificate);
    let all = joined(listeners, https_certificates());
    let secrets = all.map_values(certificate_secret());
    let c = choose|c: int| 0 <= c < all.len() && all[c] == certificate;
    assert(secrets[c] == certificate.key());
    assert(secrets.contains(certificate.key()));
    law_secret_is_mounted(secrets, certificate.key());
    let i = choose|i: int|
        0 <= i < secret_volume(secrets).projected->0.len() && (
        #[trigger] secret_volume(secrets).projected->0[i]).name == certificate.key().name;
    assert(deployment_of(gateway).volumes[2].projected->0[i].name == certificate.key().name);
}

/// There are config maps only where the files were made: that of the files and that of what Envoy starts
/// with, under the names that the volumes of the deployment mount.
pub proof fn law_plan(gateway: GatewayView, data: XdsDataView, bootstrap: Seq<char>)
    ensures
        plan_of(gateway, None).config_maps.len() == 0,
        plan_of(gateway, None).deployment == deployment_of(gateway),
        plan_of(gateway, None).service == gateway.service(),
        plan_of(gateway, None).service_account == gateway.service_account(),
        ({
            let plan = plan_of(gateway, Some((data, bootstrap)));
            &&& plan.deployment == deployment_of(gateway)
            &&& plan.service == gateway.service()
            &&& plan.service_account == gateway.service_account()
            &&& plan.config_maps.len() == 2
            &&& plan.config_maps[0].name == plan.deployment.volumes[1].config_map->0.name
            &&& plan.config_maps[0].namespace == gateway.resource_key.namespace
            &&& plan.config_maps[0].data == files_of(
                data.lds_content,
                data.rds_content,
                data.cds_content,
            )
            &&& plan.config_maps[1].name == plan.deployment.volumes[0].config_map->0.name
            &&& plan.config_maps[1].namespace == gateway.resource_key.namespace
            &&& plan.config_maps[1].data == seq![("envoy-bootstrap.yaml"@, bootstrap)]
        }),
{
}

} // verus!

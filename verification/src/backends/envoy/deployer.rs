//! How a gateway that is told of its resources is deployed, and what is done where it changes.
use vstd::prelude::*;
use crate::backends::deployment::{
    ConfigMapPlan,
    ConfigMapPlanView,
    DeployedService,
    DeploymentPlan,
    DeploymentPlanView,
    FollowUp,
    FollowUpView,
    ServiceAccountPlan,
    ServiceAccountPlanView,
    ServicePlan,
    ServicePlanView,
    bootstrap_volume,
    collect_certificates,
    config_map_names,
    create_bootstrap_volume,
    create_container_ports,
    create_labels,
    create_secret_volume,
    create_service,
    create_service_account,
    follows,
    fresh_version,
    https_certificates,
    law_certificates_of_listeners,
    one_entry,
    secret_files,
    secret_volume,
    update_address_with_polling,
    versioned,
};
use crate::backends::envoy::ads::{AckVersions, AckVersionsView};
use crate::backends::envoy::listeners::{
    certificate_name,
    create_certificate_name,
    create_key_name,
    create_secret_name,
    key_name,
    resolved_secret,
    secret_name,
    secret_of,
};
use crate::backends::envoy::resources::{Resource, ResourceView};
use crate::backends::envoy::server::{ServerAction, ServerActionView};
use crate::backends::templates::{
    TemplateError,
    Templates,
    TeraBootstrap,
    TeraBootstrapView,
    TeraSecret,
    TeraSecretView,
    bootstrap_rendered,
    renders_as,
};
use crate::common::address::{ControlPlaneConfig, ControlPlaneConfigView};
use crate::common::certificate::CertificateView;
use crate::common::contexts::{
    BackendGatewayResponse,
    BackendGatewayResponseView,
    ChangedContext,
};
use crate::common::gateway::{Gateway, GatewayView};
use crate::common::listener::TlsTypeView;
use crate::common::resource_key::{ResourceKey, ResourceKeyView};
use crate::lists::{
    append_list,
    choose_list,
    chosen,
    chosen_contains,
    joined,
    map_list,
    no_items,
    one_item,
};
use crate::model::Model;
use crate::ordered::{
    OrderedMap,
    OrderedSet,
    drop_key,
    increasing,
    keys,
    law_drop_key,
    law_put,
    law_set_of,
    put,
    set_of,
    table,
    values,
};

verus! {

/// The names of the files of a secret, under its name.
pub open spec fn secret_names() -> spec_fn(ResourceKeyView) -> (Seq<char>, (Seq<char>, Seq<char>)) {
    |key: ResourceKeyView| (secret_name(key), (certificate_name(key), key_name(key)))
}

fn name_files(key: &ResourceKey) -> (r: (String, (String, String)))
    ensures
        r.deep_view() == secret_names()(key.deep_view()),
{
    (create_secret_name(key), (create_certificate_name(key), create_key_name(key)))
}

/// A secret, as the template of what Envoy starts with takes it.
pub open spec fn told_secret() -> spec_fn((Seq<char>, (Seq<char>, Seq<char>))) -> TeraSecretView {
    |names: (Seq<char>, (Seq<char>, Seq<char>))|
        TeraSecretView { name: names.0, certificate: names.1.0, key: names.1.1 }
}

fn tell_secret(names: &(String, (String, String))) -> (r: TeraSecret)
    ensures
        r.deep_view() == told_secret()(names.deep_view()),
{
    TeraSecret { name: names.0.dup(), certificate: names.1.0.dup(), key: names.1.1.dup() }
}

/// The template of what Envoy starts with where there are no secrets.
pub const BOOTSTRAP_TEMPLATE: &'static str = "envoy-bootstrap-dynamic.yaml.tera";

/// The template of what Envoy starts with where there are secrets.
pub const BOOTSTRAP_WITH_SECRETS_TEMPLATE: &'static str =
    "envoy-bootstrap-dynamic-with-secrets.yaml.tera";

/// The template of what Envoy starts with.
pub open spec fn bootstrap_template(secrets: Seq<ResourceKeyView>) -> Seq<char> {
    if secrets.len() == 0 {
        BOOTSTRAP_TEMPLATE@
    } else {
        BOOTSTRAP_WITH_SECRETS_TEMPLATE@
    }
}

/// What Envoy starts with: the secrets, each once, in the order of their names, and the control plane.
pub open spec fn bootstrap_of(
    config: ControlPlaneConfigView,
    secrets: Seq<ResourceKeyView>,
) -> TeraBootstrapView {
    TeraBootstrapView {
        secrets: if secrets.len() == 0 {
            None
        } else {
            Some(
                set_of::<(String, (String, String))>(
                    secrets.map_values(secret_names()),
                ).map_values(told_secret()),
            )
        },
        control_plane_host: config.host,
        control_plane_port: config.port,
    }
}

/// What Envoy starts with.
pub fn create_bootstrap(config: &ControlPlaneConfig, secrets: &Vec<ResourceKey>) -> (r:
    TeraBootstrap)
    ensures
        r.deep_view() == bootstrap_of(config.deep_view(), secrets.deep_view()),
{
    let told = if secrets.len() == 0 {
        None
    } else {
        let names = map_list(secrets, name_files, Ghost(secret_names()));
        let set = OrderedSet::gather(&names);
        Some(map_list(set.items(), tell_secret, Ghost(told_secret())))
    };
    TeraBootstrap {
        secrets: told,
        control_plane_host: config.host.dup(),
        control_plane_port: config.port,
    }
}

/// Renders what Envoy starts with. Where there is no text, the template is named.
pub fn bootstrap_content(
    templates: &Templates,
    config: &ControlPlaneConfig,
    secrets: &Vec<ResourceKey>,
) -> (r: Result<String, TemplateError>)
    ensures
        renders_as(
            r,
            bootstrap_template(secrets.deep_view()),
            bootstrap_rendered(
                templates.sources(),
                bootstrap_template(secrets.deep_view()),
                bootstrap_of(config.deep_view(), secrets.deep_view()),
            ),
        ),
        r is Ok ==> templates.sources().contains_key(bootstrap_template(secrets.deep_view())),
{
    let template = if secrets.len() == 0 {
        BOOTSTRAP_TEMPLATE
    } else {
        BOOTSTRAP_WITH_SECRETS_TEMPLATE
    };
    let bootstrap = create_bootstrap(config, secrets);
    templates.render_bootstrap(template, &bootstrap)
}

/// The certificates of a gateway whose secrets its pods need.
pub open spec fn resolved_certificates(gateway: GatewayView) -> Seq<ResourceKeyView> {
    chosen(joined(values(gateway.listeners), https_certificates()), resolved_secret())
}

/// Whether a deployment is that of a gateway. Its version is random.
pub open spec fn deploys(plan: DeploymentPlanView, gateway: GatewayView) -> bool {
    &&& versioned(plan.annotations)
    &&& plan == (DeploymentPlanView {
        name: gateway.resource_key.name,
        namespace: gateway.resource_key.namespace,
        annotations: plan.annotations,
        labels: gateway.app_label(),
        replicas: 1,
        ports: gateway.container_ports(),
        volumes: seq![bootstrap_volume(gateway), secret_volume(resolved_certificates(gateway))],
    })
}

/// The deployment of a gateway.
pub fn create_deployment(gateway: &Gateway) -> (r: DeploymentPlan)
    ensures
        deploys(r.deep_view(), gateway.deep_view()),
{
    let mut labels = create_labels(gateway);
    labels.insert("app".to_owned(), gateway.name().to_owned());
    assert(labels.deep_view() =~= gateway.deep_view().app_label());
    let listeners = gateway.listeners();
    let certificates = collect_certificates(&listeners);
    let secrets = choose_list(&certificates, secret_of, Ghost(resolved_secret()));
    let first = create_bootstrap_volume(gateway);
    let second = create_secret_volume(&secrets);
    let volumes = append_list(one_item(first), one_item(second));
    assert(volumes.deep_view() =~= seq![first.deep_view(), second.deep_view()]);
    DeploymentPlan {
        name: gateway.name().to_owned(),
        namespace: gateway.namespace().to_owned(),
        annotations: fresh_version(),
        labels,
        replicas: 1,
        ports: create_container_ports(gateway),
        volumes,
    }
}

/// Whether a config map holds what Envoy starts with. Its version is random.
pub open spec fn holds_bootstrap(
    plan: ConfigMapPlanView,
    name: Seq<char>,
    gateway: GatewayView,
    content: Seq<char>,
) -> bool {
    &&& versioned(plan.annotations)
    &&& plan == (ConfigMapPlanView {
        name,
        namespace: gateway.resource_key.namespace,
        annotations: plan.annotations,
        data: seq![("envoy-bootstrap.yaml"@, content)],
    })
}

/// The config map of what Envoy starts with.
pub fn create_envoy_bootstrap_config_map(name: &str, gateway: &Gateway, content: String) -> (r:
    ConfigMapPlan)
    ensures
        holds_bootstrap(r.deep_view(), name@, gateway.deep_view(), content@),
{
    ConfigMapPlan {
        name: name.to_owned(),
        namespace: gateway.namespace().to_owned(),
        annotations: fresh_version(),
        data: one_entry("envoy-bootstrap.yaml", content),
    }
}

/// All that is deployed for a gateway, in the order in which it is.
#[derive(Debug, PartialEq, Eq)]
pub struct DeployPlan {
    pub field_manager: String,
    pub config_map: ConfigMapPlan,
    pub deployment: DeploymentPlan,
    pub service: ServicePlan,
    pub service_account: ServiceAccountPlan,
}

/// What a [`DeployPlan`] holds.
#[verifier::ext_equal]
pub struct DeployPlanView {
    pub field_manager: Seq<char>,
    pub config_map: ConfigMapPlanView,
    pub deployment: DeploymentPlanView,
    pub service: ServicePlanView,
    pub service_account: ServiceAccountPlanView,
}

impl DeepView for DeployPlan {
    type V = DeployPlanView;

    open spec fn deep_view(&self) -> DeployPlanView {
        DeployPlanView {
            field_manager: self.field_manager.deep_view(),
            config_map: self.config_map.deep_view(),
            deployment: self.deployment.deep_view(),
            service: self.service.deep_view(),
            service_account: self.service_account.deep_view(),
        }
    }
}

impl Model for DeployPlan {
    fn dup(&self) -> (r: Self) {
        DeployPlan {
            field_manager: self.field_manager.dup(),
            config_map: self.config_map.dup(),
            deployment: self.deployment.dup(),
            service: self.service.dup(),
            service_account: self.service_account.dup(),
        }
    }

    fn same(&self, other: &Self) -> (r: bool) {
        self.field_manager.same(&other.field_manager)
            && self.config_map.same(&other.config_map)
            && self.deployment.same(&other.deployment)
            && self.service.same(&other.service)
            && self.service_account.same(&other.service_account)
    }
}

/// What is deployed for a gateway, where what Envoy starts with was rendered.
pub fn deploy_envoy(
    config: &ControlPlaneConfig,
    gateway: &Gateway,
    content: Result<String, TemplateError>,
) -> (r: Result<DeployPlan, TemplateError>)
    ensures
        match content {
            Ok(text) => {
                &&& r is Ok
                &&& r->Ok_0.field_manager@ == config.controller_name@
                &&& holds_bootstrap(
                    r->Ok_0.config_map.deep_view(),
                    gateway.deep_view().resource_key.name + "-bootstrap-cm"@,
                    gateway.deep_view(),
                    text@,
                )
                &&& deploys(r->Ok_0.deployment.deep_view(), gateway.deep_view())
                &&& r->Ok_0.service.deep_view() == gateway.deep_view().service()
                &&& r->Ok_0.service_account.deep_view() == gateway.deep_view().service_account()
            },
            Err(error) => r == Err::<DeployPlan, TemplateError>(error),
        },
{
    let text = match content {
        Ok(text) => text,
        Err(error) => {
            return Err(error);
        },
    };
    let (_, bootstrap) = config_map_names(gateway);
    Ok(
        DeployPlan {
            field_manager: config.controller_name.dup(),
            config_map: create_envoy_bootstrap_config_map(bootstrap.as_str(), gateway, text),
            deployment: create_deployment(gateway),
            service: create_service(gateway),
            service_account: create_service_account(gateway),
        },
    )
}

/// An object that is deleted with a gateway, in the namespace of the gateway.
#[derive(Debug, PartialEq, Eq)]
pub enum Deletion {
    ServiceAccount(String),
    Service(String),
    Deployment(String),
    ConfigMap(String),
}

/// What a [`Deletion`] holds.
#[verifier::ext_equal]
pub enum DeletionView {
    ServiceAccount(Seq<char>),
    Service(Seq<char>),
    Deployment(Seq<char>),
    ConfigMap(Seq<char>),
}

impl DeepView for Deletion {
    type V = DeletionView;

    open spec fn deep_view(&self) -> DeletionView {
        match self {
            Deletion::ServiceAccount(x0) => DeletionView::ServiceAccount(x0.deep_view()),
            Deletion::Service(x0) => DeletionView::Service(x0.deep_view()),
            Deletion::Deployment(x0) => DeletionView::Deployment(x0.deep_view()),
            Deletion::ConfigMap(x0) => DeletionView::ConfigMap(x0.deep_view()),
        }
    }
}

impl Model for Deletion {
    fn dup(&self) -> (r: Self) {
        match self {
            Deletion::ServiceAccount(x0) => Deletion::ServiceAccount(x0.dup()),
            Deletion::Service(x0) => Deletion::Service(x0.dup()),
            Deletion::Deployment(x0) => Deletion::Deployment(x0.dup()),
            Deletion::ConfigMap(x0) => Deletion::ConfigMap(x0.dup()),
        }
    }

    fn same(&self, other: &Self) -> (r: bool) {
        match (self, other) {
            (Deletion::ServiceAccount(x0), Deletion::ServiceAccount(x0_)) => x0.same(x0_),
            (Deletion::Service(x0), Deletion::Service(x0_)) => x0.same(x0_),
            (Deletion::Deployment(x0), Deletion::Deployment(x0_)) => x0.same(x0_),
            (Deletion::ConfigMap(x0), Deletion::ConfigMap(x0_)) => x0.same(x0_),
            _ => false,
        }
    }
}

/// What is deleted with a gateway.
pub open spec fn deletions_of(gateway: GatewayView) -> Seq<DeletionView> {
    let name = gateway.resource_key.name;
    seq![
        DeletionView::ServiceAccount(name),
        DeletionView::Service(name),
        DeletionView::Deployment(name),
        DeletionView::ConfigMap(name + "-xds-cm"@),
        DeletionView::ConfigMap(name + "-bootstrap-cm"@),
    ]
}

/// What is deleted with a gateway.
pub fn delete_envoy(gateway: &Gateway) -> (r: Vec<Deletion>)
    ensures
        r.deep_view() == deletions_of(gateway.deep_view()),
{
    let (xds, bootstrap) = config_map_names(gateway);
    let mut out: Vec<Deletion> = Vec::new();
    out.push(Deletion::ServiceAccount(gateway.name().to_owned()));
    out.push(Deletion::Service(gateway.name().to_owned()));
    out.push(Deletion::Deployment(gateway.name().to_owned()));
    out.push(Deletion::ConfigMap(xds));
    out.push(Deletion::ConfigMap(bootstrap));
    assert(out.deep_view() =~= deletions_of(gateway.deep_view()));
    out
}

/// What the deployer is to do.
#[derive(Debug)]
pub enum DeployerAction {
    Tell(ServerAction),
    Follow(FollowUp),
}

/// What a [`DeployerAction`] holds.
#[verifier::ext_equal]
pub enum DeployerActionView {
    Tell(ServerActionView),
    Follow(FollowUpView),
}

impl DeepView for DeployerAction {
    type V = DeployerActionView;

    open spec fn deep_view(&self) -> DeployerActionView {
        match self {
            DeployerAction::Tell(x0) => DeployerActionView::Tell(x0.deep_view()),
            DeployerAction::Follow(x0) => DeployerActionView::Follow(x0.deep_view()),
        }
    }
}

impl Model for DeployerAction {
    fn dup(&self) -> (r: Self) {
        match self {
            DeployerAction::Tell(x0) => DeployerAction::Tell(x0.dup()),
            DeployerAction::Follow(x0) => DeployerAction::Follow(x0.dup()),
        }
    }

    fn same(&self, other: &Self) -> (r: bool) {
        match (self, other) {
            (DeployerAction::Tell(x0), DeployerAction::Tell(x0_)) => x0.same(x0_),
            (DeployerAction::Follow(x0), DeployerAction::Follow(x0_)) => x0.same(x0_),
            _ => false,
        }
    }
}

/// What is told of the resources of a gateway: clusters first, then listeners.
pub open spec fn tellings(
    gateway: GatewayView,
    versions: AckVersionsView,
    listeners: Seq<ResourceView>,
    clusters: Seq<ResourceView>,
) -> Seq<DeployerActionView> {
    seq![
        DeployerActionView::Tell(
            ServerActionView::UpdateClusters {
                gateway_id: gateway.resource_key,
                resources: clusters,
                ack_version: versions.cluster,
            },
        ),
        DeployerActionView::Tell(
            ServerActionView::UpdateListeners {
                gateway_id: gateway.resource_key,
                resources: listeners,
                ack_version: versions.listener,
            },
        ),
    ]
}

/// The versions of a gateway after it changed: one more each, or the first.
pub open spec fn raised_versions(
    versions: Seq<(ResourceKeyView, AckVersionsView)>,
    key: ResourceKeyView,
) -> AckVersionsView {
    if table(versions).contains_key(key) {
        AckVersionsView {
            cluster: (table(versions)[key].cluster + 1) as u32,
            listener: (table(versions)[key].listener + 1) as u32,
        }
    } else {
        AckVersionsView { cluster: 0, listener: 0 }
    }
}

/// Deploys gateways and counts how often each of them changed.
#[derive(Debug)]
pub struct EnvoyDeployer {
    ack_versions: OrderedMap<ResourceKey, AckVersions>,
}

impl EnvoyDeployer {
    /// The versions of the gateways.
    pub closed spec fn versions(&self) -> Seq<(ResourceKeyView, AckVersionsView)> {
        self.ack_versions.deep_view()
    }

    /// A deployer that knows of no gateways.
    pub fn new() -> (r: Self)
        ensures
            r.versions() == Seq::<(ResourceKeyView, AckVersionsView)>::empty(),
            increasing::<ResourceKey>(keys(r.versions())),
    {
        EnvoyDeployer { ack_versions: OrderedMap::new() }
    }

    /// Whether the versions of a gateway have not run out.
    pub fn has_versions(&self, key: &ResourceKey) -> (r: bool)
        ensures
            r == (table(self.versions()).contains_key(key.deep_view()) ==> table(
                self.versions(),
            )[key.deep_view()].cluster < u32::MAX && table(
                self.versions(),
            )[key.deep_view()].listener < u32::MAX),
    {
        match self.ack_versions.get(key) {
            Some(versions) => versions.cluster < u32::MAX && versions.listener < u32::MAX,
            None => true,
        }
    }

    /// Counts a change of a gateway. The versions that its resources get are given back.
    pub fn changed(&mut self, key: &ResourceKey) -> (r: AckVersions)
        requires
            table(old(self).versions()).contains_key(key.deep_view()) ==> table(
                old(self).versions(),
            )[key.deep_view()].cluster < u32::MAX && table(
                old(self).versions(),
            )[key.deep_view()].listener < u32::MAX,
        ensures
            r.deep_view() == raised_versions(old(self).versions(), key.deep_view()),
            final(self).versions() == put::<ResourceKey, AckVersionsView>(
                old(self).versions(),
                key.deep_view(),
                raised_versions(old(self).versions(), key.deep_view()),
            ),
            increasing::<ResourceKey>(keys(final(self).versions())),
    {
        let next = match self.ack_versions.get(key) {
            Some(versions) => {
                let mut next = versions.dup();
                next.inc();
                next
            },
            None => AckVersions::default(),
        };
        self.ack_versions.insert(key.dup(), next.dup());
        proof {
            use_type_invariant(&self.ack_versions);
        }
        next
    }

    /// Forgets a gateway that was deleted. What is deleted with it, and the answer, are given back.
    pub fn deleted(&mut self, gateway: &Gateway) -> (r: (Vec<Deletion>, BackendGatewayResponse))
        ensures
            r.0.deep_view() == deletions_of(gateway.deep_view()),
            r.1.deep_view() == BackendGatewayResponseView::Deleted(Seq::empty()),
            final(self).versions() == drop_key::<ResourceKey, AckVersionsView>(
                old(self).versions(),
                gateway.deep_view().resource_key,
            ),
            increasing::<ResourceKey>(keys(final(self).versions())),
    {
        let _ = self.ack_versions.remove(gateway.key());
        proof {
            use_type_invariant(&self.ack_versions);
        }
        (delete_envoy(gateway), BackendGatewayResponse::Deleted(no_items()))
    }

    /// What is done once a gateway was deployed, or was not.
    pub fn deployed(
        context: ChangedContext,
        versions: &AckVersions,
        listeners: Vec<Resource>,
        clusters: Vec<Resource>,
        service: Option<DeployedService>,
    ) -> (r: Vec<DeployerAction>)
        ensures
            match service {
                Some(service) => {
                    &&& r.deep_view().len() == 3
                    &&& r.deep_view().take(2) == tellings(
                        context.deep_view().gateway,
                        versions.deep_view(),
                        listeners.deep_view(),
                        clusters.deep_view(),
                    )
                    &&& r.deep_view()[2] is Follow
                    &&& follows(r.deep_view()[2]->Follow_0, context.deep_view(), service.deep_view())
                },
                None => r.deep_view() == seq![
                    DeployerActionView::Follow(
                        FollowUpView::Respond(
                            BackendGatewayResponseView::Processed(context.deep_view().gateway),
                        ),
                    ),
                ],
            },
    {
        let mut out: Vec<DeployerAction> = Vec::new();
        match service {
            Some(service) => {
                let ghost gateway = context.deep_view().gateway;
                let first = DeployerAction::Tell(
                    ServerAction::UpdateClusters {
                        gateway_id: context.gateway.key().dup(),
                        resources: clusters,
                        ack_version: versions.cluster(),
                    },
                );
                let second = DeployerAction::Tell(
                    ServerAction::UpdateListeners {
                        gateway_id: context.gateway.key().dup(),
                        resources: listeners,
                        ack_version: versions.listener(),
                    },
                );
                let third = DeployerAction::Follow(update_address_with_polling(context, &service));
                out.push(first);
                out.push(second);
                out.push(third);
                assert(out.deep_view().take(2) =~= tellings(
                    gateway,
                    versions.deep_view(),
                    listeners.deep_view(),
                    clusters.deep_view(),
                ));
                assert(out.deep_view()[2] == third.deep_view());
            },
            None => {
                out.push(
                    DeployerAction::Follow(
                        FollowUp::Respond(BackendGatewayResponse::Processed(context.gateway)),
                    ),
                );
                assert(out.deep_view() =~= seq![
                    DeployerActionView::Follow(
                        FollowUpView::Respond(
                            BackendGatewayResponseView::Processed(context.deep_view().gateway),
                        ),
                    ),
                ]);
            },
        }
        out
    }
}

/// Each change of a gateway raises its versions by one.
pub proof fn law_change_raises_versions(
    versions: Seq<(ResourceKeyView, AckVersionsView)>,
    key: ResourceKeyView,
)
    requires
        increasing::<ResourceKey>(keys(versions)),
        raised_versions(versions, key).cluster < u32::MAX,
        raised_versions(versions, key).listener < u32::MAX,
    ensures
        ({
            let first = raised_versions(versions, key);
            let second = raised_versions(
                put::<ResourceKey, AckVersionsView>(versions, key, first),
                key,
            );
            second.cluster == first.cluster + 1 && second.listener == first.listener + 1
        }),
{
    law_put::<ResourceKey, AckVersionsView>(versions, key, raised_versions(versions, key));
}

/// A gateway that was deleted starts with the first versions again.
pub proof fn law_delete_restarts_versions(
    versions: Seq<(ResourceKeyView, AckVersionsView)>,
    key: ResourceKeyView,
)
    requires
        increasing::<ResourceKey>(keys(versions)),
    ensures
        raised_versions(drop_key::<ResourceKey, AckVersionsView>(versions, key), key) == (
        AckVersionsView { cluster: 0, listener: 0 }),
{
    law_drop_key::<ResourceKey, AckVersionsView>(versions, key);
}

/// What Envoy starts with is where the control plane is reached. It has no secrets where there are
/// none, and the template goes with that.
pub proof fn law_bootstrap(config: ControlPlaneConfigView, secrets: Seq<ResourceKeyView>)
    ensures
        bootstrap_of(config, secrets).control_plane_host == config.host,
        bootstrap_of(config, secrets).control_plane_port == config.port,
        secrets.len() == 0 ==> bootstrap_of(config, secrets).secrets is None && bootstrap_template(
            secrets,
        ) == "envoy-bootstrap-dynamic.yaml.tera"@,
        secrets.len() > 0 ==> bootstrap_of(config, secrets).secrets is Some && bootstrap_template(
            secrets,
        ) == "envoy-bootstrap-dynamic-with-secrets.yaml.tera"@,
{
}

/// Each secret is told of by its name, with the files that the volume of secrets has for it.
pub proof fn law_secret_is_told_of(
    config: ControlPlaneConfigView,
    secrets: Seq<ResourceKeyView>,
    key: ResourceKeyView,
)
    requires
        secrets.contains(key),
    ensures
        exists|i: int|
            {
                let told = bootstrap_of(config, secrets).secrets->0;
                &&& 0 <= i < told.len()
                &&& (#[trigger] bootstrap_of(config, secrets).secrets->0[i]).name == key.name + "_"@
                    + key.namespace
                &&& told[i].certificate == key.name + "_"@ + key.namespace + "_cert.pem"@
                &&& told[i].key == key.name + "_"@ + key.namespace + "_key.pem"@
                &&& told[i].certificate == secret_files()(key).items[0].path
                &&& told[i].key == secret_files()(key).items[1].path
            },
{
    let names = secrets.map_values(secret_names());
    let set = set_of::<(String, (String, String))>(names);
    law_set_of::<(String, (String, String))>(names);
    let k = choose|k: int| 0 <= k < secrets.len() && secrets[k] == key;
    assert(names[k] == secret_names()(key));
    assert(names.to_set().contains(secret_names()(key)));
    assert(set.to_set().contains(secret_names()(key)));
    let i = choose|i: int| 0 <= i < set.len() && set[i] == secret_names()(key);
    assert(bootstrap_of(config, secrets).secrets->0[i] == told_secret()(set[i]));
}

/// No other secret is told of.
pub proof fn law_only_secrets_are_told_of(
    config: ControlPlaneConfigView,
    secrets: Seq<ResourceKeyView>,
    i: int,
)
    requires
        secrets.len() > 0,
        0 <= i < bootstrap_of(config, secrets).secrets->0.len(),
    ensures
        exists|k: int|
            0 <= k < secrets.len() && (#[trigger] secrets[k]).name + "_"@ + secrets[k].namespace
                == bootstrap_of(config, secrets).secrets->0[i].name,
{
    let names = secrets.map_values(secret_names());
    let set = set_of::<(String, (String, String))>(names);
    law_set_of::<(String, (String, String))>(names);
    assert(set.to_set().contains(set[i]));
    assert(names.to_set().contains(set[i]));
    let k = choose|k: int| 0 <= k < names.len() && names[k] == set[i];
    assert(bootstrap_of(config, secrets).secrets->0[i].name == secret_names()(secrets[k]).0);
}

/// The pods of a gateway need the secret of each certificate of its HTTPS listeners that end TLS that
/// is resolved in its namespace, and no other.
pub proof fn law_pods_need_secrets(gateway: GatewayView, key: ResourceKeyView)
    ensures
        resolved_certificates(gateway).contains(key) <==> exists|
            l: int,
            certificates: Seq<CertificateView>,
        |
            0 <= l < gateway.listeners.len() && (#[trigger] gateway.listeners[l]).1 is Https
                && gateway.listeners[l].1.made_of().config.tls_type == Some(
                TlsTypeView::Terminate(certificates),
            ) && #[trigger] certificates.contains(CertificateView::ResolvedSameSpace(key)),
{
    let listeners = values(gateway.listeners);
    let all = joined(listeners, https_certificates());
    let wanted = CertificateView::ResolvedSameSpace(key);
    chosen_contains(all, resolved_secret(), key);
    law_certificates_of_listeners(listeners, wanted);
    if resolved_certificates(gateway).contains(key) {
        let c = choose|c: int|
            0 <= c < all.len() && #[trigger] resolved_secret()(all[c]) == Some(key);
        assert(all[c] == wanted);
        assert(all.contains(wanted));
        let (l, certificates) = choose|l: int, certificates: Seq<CertificateView>|
            0 <= l < listeners.len() && (#[trigger] listeners[l]) is Https
                && listeners[l].made_of().config.tls_type == Some(
                TlsTypeView::Terminate(certificates),
            ) && #[trigger] certificates.contains(wanted);
        assert(gateway.listeners[l].1 == listeners[l]);
    }
    if exists|l: int, certificates: Seq<CertificateView>|
        0 <= l < gateway.listeners.len() && (#[trigger] gateway.listeners[l]).1 is Https
            && gateway.listeners[l].1.made_of().config.tls_type == Some(
            TlsTypeView::Terminate(certificates),
        ) && #[trigger] certificates.contains(wanted) {
        let (l, certificates) = choose|l: int, certificates: Seq<CertificateView>|
            0 <= l < gateway.listeners.len() && (#[trigger] gateway.listeners[l]).1 is Https
                && gateway.listeners[l].1.made_of().config.tls_type == Some(
                TlsTypeView::Terminate(certificates),
            ) && #[trigger] certificates.contains(wanted);
        assert(listeners[l] == gateway.listeners[l].1);
        assert(all.contains(wanted));
        let c = choose|c: int| 0 <= c < all.len() && all[c] == wanted;
        assert(resolved_secret()(all[c]) == Some(key));
    }
}

/// The deployment of a gateway has its name and namespace, one pod that bears the label that its service
/// selects, the ports of its listeners, and what it starts with and its secrets as volumes.
pub proof fn law_deployment(plan: DeploymentPlanView, gateway: GatewayView)
    requires
        deploys(plan, gateway),
    ensures
        plan.name == gateway.resource_key.name,
        plan.namespace == gateway.resource_key.namespace,
        plan.labels == gateway.service().selector,
        plan.replicas == 1,
        plan.ports == gateway.container_ports(),
        plan.volumes.len() == 2,
        plan.volumes[0] == bootstrap_volume(gateway),
        plan.volumes[1] == secret_volume(resolved_certificates(gateway)),
{
}

/// The config map holds the text as the one file that the volume of the deployment mounts.
pub proof fn law_config_map_is_mounted(
    plan: ConfigMapPlanView,
    gateway: GatewayView,
    content: Seq<char>,
)
    requires
        holds_bootstrap(plan, gateway.resource_key.name + "-bootstrap-cm"@, gateway, content),
    ensures
        plan.namespace == gateway.resource_key.namespace,
        plan.name == bootstrap_volume(gateway).config_map->0.name,
        plan.data.len() == 1,
        plan.data[0].0 == bootstrap_volume(gateway).config_map->0.items->0[0].key,
        plan.data[0].1 == content,
{
}

/// All that was deployed for a gateway is deleted with it: its service account, its service, its
/// deployment and its config maps.
pub proof fn law_all_is_deleted(gateway: GatewayView)
    ensures
        ({
            let gone = deletions_of(gateway);
            &&& gone.len() == 5
            &&& gone[0] == DeletionView::ServiceAccount(gateway.service_account().name)
            &&& gone[1] == DeletionView::Service(gateway.service().name)
            &&& gone[2] == DeletionView::Deployment(gateway.resource_key.name)
            &&& gone[3] == DeletionView::ConfigMap(gateway.resource_key.name + "-xds-cm"@)
            &&& gone[4] == DeletionView::ConfigMap(bootstrap_volume(gateway).config_map->0.name)
        }),
{
}

/// Clusters are told of before the listeners that refer to them, each with their version.
pub proof fn law_clusters_are_told_of_first(
    gateway: GatewayView,
    versions: AckVersionsView,
    listeners: Seq<ResourceView>,
    clusters: Seq<ResourceView>,
)
    ensures
        ({
            let told = tellings(gateway, versions, listeners, clusters);
            &&& told.len() == 2
            &&& told[0] is Tell
            &&& told[0]->Tell_0 is UpdateClusters
            &&& told[0]->Tell_0->UpdateClusters_resources == clusters
            &&& told[0]->Tell_0->UpdateClusters_ack_version == versions.cluster
            &&& told[0]->Tell_0->UpdateClusters_gateway_id == gateway.resource_key
            &&& told[1] is Tell
            &&& told[1]->Tell_0 is UpdateListeners
            &&& told[1]->Tell_0->UpdateListeners_resources == listeners
            &&& told[1]->Tell_0->UpdateListeners_ack_version == versions.listener
            &&& told[1]->Tell_0->UpdateListeners_gateway_id == gateway.resource_key
        }),
{
}

/// A gateway that is not known starts with version zero, and a change of a gateway leaves the versions
/// of all others as they are.
pub proof fn law_versions_of_gateways(
    versions: Seq<(ResourceKeyView, AckVersionsView)>,
    key: ResourceKeyView,
    other: ResourceKeyView,
)
    requires
        increasing::<ResourceKey>(keys(versions)),
        key != other,
    ensures
        !table(versions).contains_key(key) ==> raised_versions(versions, key).cluster == 0
            && raised_versions(versions, key).listener == 0,
        raised_versions(
            put::<ResourceKey, AckVersionsView>(versions, key, raised_versions(versions, key)),
            other,
        ) == raised_versions(versions, other),
{
    law_put::<ResourceKey, AckVersionsView>(versions, key, raised_versions(versions, key));
}

} // verus!

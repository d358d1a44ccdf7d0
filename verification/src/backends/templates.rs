//! Templates that the crate `tera` renders, and what they are rendered with.
use serde_json::Value;
use vstd::prelude::*;
use crate::backends::sources::{check_source, fits, renders_safely};
use crate::model::Model;

verus! {

/// A set of templates, of the crate `tera`.
#[verifier::external_type_specification]
#[verifier::external_body]
pub struct ExTera(tera::Tera);

/// Why a template was not rendered, of the crate `tera`.
#[verifier::external_type_specification]
#[verifier::external_body]
pub struct ExTeraError(tera::Error);

/// A template that was not rendered.
#[derive(Debug, PartialEq, Eq)]
pub struct TemplateError {
    pub template: String,
}

/// What a [`TemplateError`] holds.
#[verifier::ext_equal]
pub struct TemplateErrorView {
    pub template: Seq<char>,
}

impl DeepView for TemplateError {
    type V = TemplateErrorView;

    open spec fn deep_view(&self) -> TemplateErrorView {
        TemplateErrorView {
            template: self.template.deep_view(),
        }
    }
}

impl Model for TemplateError {
    fn dup(&self) -> (r: Self) {
        TemplateError {
            template: self.template.dup(),
        }
    }

    fn same(&self, other: &Self) -> (r: bool) {
        self.template.same(&other.template)
    }
}

/// A listener, as the template of listeners takes it.
#[derive(Debug, PartialEq, Eq)]
pub struct TeraListener {
    pub name: String,
    pub port: i32,
    pub route_name: String,
    pub ip_address: String,
}

/// What a [`TeraListener`] holds.
#[verifier::ext_equal]
pub struct TeraListenerView {
    pub name: Seq<char>,
    pub port: i32,
    pub route_name: Seq<char>,
    pub ip_address: Seq<char>,
}

impl DeepView for TeraListener {
    type V = TeraListenerView;

    open spec fn deep_view(&self) -> TeraListenerView {
        TeraListenerView {
            name: self.name.deep_view(),
            port: self.port.deep_view(),
            route_name: self.route_name.deep_view(),
            ip_address: self.ip_address.deep_view(),
        }
    }
}

impl Model for TeraListener {
    fn dup(&self) -> (r: Self) {
        TeraListener {
            name: self.name.dup(),
            port: self.port.dup(),
            route_name: self.route_name.dup(),
            ip_address: self.ip_address.dup(),
        }
    }

    fn same(&self, other: &Self) -> (r: bool) {
        self.name.same(&other.name)
            && self.port.same(&other.port)
            && self.route_name.same(&other.route_name)
            && self.ip_address.same(&other.ip_address)
    }
}

/// A path, as the template of routes takes it.
#[derive(Debug, PartialEq, Eq)]
pub struct TeraPath {
    pub path: String,
    pub match_type: String,
}

/// What a [`TeraPath`] holds.
#[verifier::ext_equal]
pub struct TeraPathView {
    pub path: Seq<char>,
    pub match_type: Seq<char>,
}

impl DeepView for TeraPath {
    type V = TeraPathView;

    open spec fn deep_view(&self) -> TeraPathView {
        TeraPathView {
            path: self.path.deep_view(),
            match_type: self.match_type.deep_view(),
        }
    }
}

impl Model for TeraPath {
    fn dup(&self) -> (r: Self) {
        TeraPath {
            path: self.path.dup(),
            match_type: self.match_type.dup(),
        }
    }

    fn same(&self, other: &Self) -> (r: bool) {
        self.path.same(&other.path)
            && self.match_type.same(&other.match_type)
    }
}

/// A route of a virtual host, as the template of routes takes it.
#[derive(Debug, PartialEq, Eq)]
pub struct TeraRouteConfig {
    pub path: Option<TeraPath>,
    pub cluster_name: String,
}

/// What a [`TeraRouteConfig`] holds.
#[verifier::ext_equal]
pub struct TeraRouteConfigView {
    pub path: Option<TeraPathView>,
    pub cluster_name: Seq<char>,
}

impl DeepView for TeraRouteConfig {
    type V = TeraRouteConfigView;

    open spec fn deep_view(&self) -> TeraRouteConfigView {
        TeraRouteConfigView {
            path: self.path.deep_view(),
            cluster_name: self.cluster_name.deep_view(),
        }
    }
}

impl Model for TeraRouteConfig {
    fn dup(&self) -> (r: Self) {
        TeraRouteConfig {
            path: self.path.dup(),
            cluster_name: self.cluster_name.dup(),
        }
    }

    fn same(&self, other: &Self) -> (r: bool) {
        self.path.same(&other.path)
            && self.cluster_name.same(&other.cluster_name)
    }
}

/// A virtual host, as the template of routes takes it.
#[derive(Debug, PartialEq, Eq)]
pub struct TeraVirtualHost {
    pub hostname: String,
    pub route_configs: Vec<TeraRouteConfig>,
}

/// What a [`TeraVirtualHost`] holds.
#[verifier::ext_equal]
pub struct TeraVirtualHostView {
    pub hostname: Seq<char>,
    pub route_configs: Seq<TeraRouteConfigView>,
}

impl DeepView for TeraVirtualHost {
    type V = TeraVirtualHostView;

    open spec fn deep_view(&self) -> TeraVirtualHostView {
        TeraVirtualHostView {
            hostname: self.hostname.deep_view(),
            route_configs: self.route_configs.deep_view(),
        }
    }
}

impl Model for TeraVirtualHost {
    fn dup(&self) -> (r: Self) {
        TeraVirtualHost {
            hostname: self.hostname.dup(),
            route_configs: self.route_configs.dup(),
        }
    }

    fn same(&self, other: &Self) -> (r: bool) {
        self.hostname.same(&other.hostname)
            && self.route_configs.same(&other.route_configs)
    }
}

/// The routes of a listener, as their template takes them.
#[derive(Debug, PartialEq, Eq)]
pub struct TeraRoute {
    pub name: String,
    pub virtual_hosts: Vec<TeraVirtualHost>,
}

/// What a [`TeraRoute`] holds.
#[verifier::ext_equal]
pub struct TeraRouteView {
    pub name: Seq<char>,
    pub virtual_hosts: Seq<TeraVirtualHostView>,
}

impl DeepView for TeraRoute {
    type V = TeraRouteView;

    open spec fn deep_view(&self) -> TeraRouteView {
        TeraRouteView {
            name: self.name.deep_view(),
            virtual_hosts: self.virtual_hosts.deep_view(),
        }
    }
}

impl Model for TeraRoute {
    fn dup(&self) -> (r: Self) {
        TeraRoute {
            name: self.name.dup(),
            virtual_hosts: self.virtual_hosts.dup(),
        }
    }

    fn same(&self, other: &Self) -> (r: bool) {
        self.name.same(&other.name)
            && self.virtual_hosts.same(&other.virtual_hosts)
    }
}

/// An endpoint, as the template of clusters takes it.
#[derive(Debug, PartialEq, Eq)]
pub struct TeraEndpoint {
    pub service: String,
    pub port: i32,
    pub weight: i32,
}

/// What a [`TeraEndpoint`] holds.
#[verifier::ext_equal]
pub struct TeraEndpointView {
    pub service: Seq<char>,
    pub port: i32,
    pub weight: i32,
}

impl DeepView for TeraEndpoint {
    type V = TeraEndpointView;

    open spec fn deep_view(&self) -> TeraEndpointView {
        TeraEndpointView {
            service: self.service.deep_view(),
            port: self.port.deep_view(),
            weight: self.weight.deep_view(),
        }
    }
}

impl Model for TeraEndpoint {
    fn dup(&self) -> (r: Self) {
        TeraEndpoint {
            service: self.service.dup(),
            port: self.port.dup(),
            weight: self.weight.dup(),
        }
    }

    fn same(&self, other: &Self) -> (r: bool) {
        self.service.same(&other.service)
            && self.port.same(&other.port)
            && self.weight.same(&other.weight)
    }
}

/// A cluster, as the template of clusters takes it.
#[derive(Debug, PartialEq, Eq)]
pub struct TeraCluster {
    pub name: String,
    pub endpoints: Vec<TeraEndpoint>,
}

/// What a [`TeraCluster`] holds.
#[verifier::ext_equal]
pub struct TeraClusterView {
    pub name: Seq<char>,
    pub endpoints: Seq<TeraEndpointView>,
}

impl DeepView for TeraCluster {
    type V = TeraClusterView;

    open spec fn deep_view(&self) -> TeraClusterView {
        TeraClusterView {
            name: self.name.deep_view(),
            endpoints: self.endpoints.deep_view(),
        }
    }
}

impl Model for TeraCluster {
    fn dup(&self) -> (r: Self) {
        TeraCluster {
            name: self.name.dup(),
            endpoints: self.endpoints.dup(),
        }
    }

    fn same(&self, other: &Self) -> (r: bool) {
        self.name.same(&other.name)
            && self.endpoints.same(&other.endpoints)
    }
}

/// A secret, as the template of what Envoy starts with takes it.
#[derive(Debug, PartialEq, Eq)]
pub struct TeraSecret {
    pub name: String,
    pub certificate: String,
    pub key: String,
}

/// What a [`TeraSecret`] holds.
#[verifier::ext_equal]
pub struct TeraSecretView {
    pub name: Seq<char>,
    pub certificate: Seq<char>,
    pub key: Seq<char>,
}

impl DeepView for TeraSecret {
    type V = TeraSecretView;

    open spec fn deep_view(&self) -> TeraSecretView {
        TeraSecretView {
            name: self.name.deep_view(),
            certificate: self.certificate.deep_view(),
            key: self.key.deep_view(),
        }
    }
}

impl Model for TeraSecret {
    fn dup(&self) -> (r: Self) {
        TeraSecret {
            name: self.name.dup(),
            certificate: self.certificate.dup(),
            key: self.key.dup(),
        }
    }

    fn same(&self, other: &Self) -> (r: bool) {
        self.name.same(&other.name)
            && self.certificate.same(&other.certificate)
            && self.key.same(&other.key)
    }
}

/// What Envoy starts with: the secrets, where there are some, and where the control plane is reached.
#[derive(Debug, PartialEq, Eq)]
pub struct TeraBootstrap {
    pub secrets: Option<Vec<TeraSecret>>,
    pub control_plane_host: String,
    pub control_plane_port: u32,
}

/// What a [`TeraBootstrap`] holds.
#[verifier::ext_equal]
pub struct TeraBootstrapView {
    pub secrets: Option<Seq<TeraSecretView>>,
    pub control_plane_host: Seq<char>,
    pub control_plane_port: u32,
}

impl DeepView for TeraBootstrap {
    type V = TeraBootstrapView;

    open spec fn deep_view(&self) -> TeraBootstrapView {
        TeraBootstrapView {
            secrets: self.secrets.deep_view(),
            control_plane_host: self.control_plane_host.deep_view(),
            control_plane_port: self.control_plane_port.deep_view(),
        }
    }
}

impl Model for TeraBootstrap {
    fn dup(&self) -> (r: Self) {
        TeraBootstrap {
            secrets: self.secrets.dup(),
            control_plane_host: self.control_plane_host.dup(),
            control_plane_port: self.control_plane_port.dup(),
        }
    }

    fn same(&self, other: &Self) -> (r: bool) {
        self.secrets.same(&other.secrets)
            && self.control_plane_host.same(&other.control_plane_host)
            && self.control_plane_port.same(&other.control_plane_port)
    }
}

/// The templates of a set by their names, each as the source that it was read from.
pub uninterp spec fn templates_held(templates: tera::Tera) -> Map<Seq<char>, Seq<char>>;

/// Whether a source that fits can be read as a template: its variables, conditions and loops are put
/// together as they should be.
pub uninterp spec fn template_parses(source: Seq<char>) -> bool;

/// What rendering a template of a set gives for listeners: a text, or none where it fails.
pub uninterp spec fn listeners_rendered(
    templates: Map<Seq<char>, Seq<char>>,
    template: Seq<char>,
    listeners: Seq<TeraListenerView>,
) -> Option<Seq<char>>;

/// What rendering a template of a set gives for the routes of a listener: a text, or none where it fails.
pub uninterp spec fn route_rendered(
    templates: Map<Seq<char>, Seq<char>>,
    template: Seq<char>,
    route: TeraRouteView,
) -> Option<Seq<char>>;

/// What rendering a template of a set gives for clusters: a text, or none where it fails.
pub uninterp spec fn clusters_rendered(
    templates: Map<Seq<char>, Seq<char>>,
    template: Seq<char>,
    clusters: Seq<TeraClusterView>,
) -> Option<Seq<char>>;

/// What rendering a template of a set gives for what a data plane starts with: a text, or none where it
/// fails.
pub uninterp spec fn bootstrap_rendered(
    templates: Map<Seq<char>, Seq<char>>,
    template: Seq<char>,
    bootstrap: TeraBootstrapView,
) -> Option<Seq<char>>;

/// The text of a rendering, none where it failed.
pub open spec fn rendered(outcome: Result<String, tera::Error>) -> Option<Seq<char>> {
    match outcome {
        Ok(text) => Some(text@),
        Err(_) => None,
    }
}

/// Whether the outcome of a rendering is the one that is expected, with the template named where there is
/// no text.
pub open spec fn renders_as(
    outcome: Result<String, TemplateError>,
    template: Seq<char>,
    expected: Option<Seq<char>>,
) -> bool {
    match expected {
        Some(text) => outcome is Ok && outcome->Ok_0@ == text,
        None => outcome is Err && outcome->Err_0.template@ == template,
    }
}

/// The outcome of a rendering, with the template named where it failed.
fn name_failure(template: &str, outcome: Result<String, tera::Error>) -> (r: Result<
    String,
    TemplateError,
>)
    ensures
        renders_as(r, template@, rendered(outcome)),
{
    match outcome {
        Ok(text) => Ok(text),
        Err(_) => Err(TemplateError { template: template.to_owned() }),
    }
}

/// Sources by the names of their templates, the last one where a name comes more than once.
pub open spec fn by_name(sources: Seq<(Seq<char>, Seq<char>)>) -> Map<Seq<char>, Seq<char>>
    decreases sources.len(),
{
    if sources.len() == 0 {
        map![]
    } else {
        by_name(sources.drop_last()).insert(sources.last().0, sources.last().1)
    }
}

/// Whether each source is one that a template can be made of.
pub open spec fn all_fit(sources: Seq<(Seq<char>, Seq<char>)>) -> bool {
    forall|i: int| 0 <= i < sources.len() ==> fits((#[trigger] sources[i]).1)
}

/// Whether each source can be read as a template.
pub open spec fn all_parse(sources: Seq<(Seq<char>, Seq<char>)>) -> bool {
    forall|i: int| 0 <= i < sources.len() ==> template_parses((#[trigger] sources[i]).1)
}

/// `tera::Tera::add_raw_templates` on the set that `tera::Tera::default` gives, which has no templates.
/// There is a set where each source can be read, and it holds the sources by their names. Sources that do
/// not fit are left out: reading one that is nested without bounds can run out of stack.
#[verifier::external_body]
fn read_templates(sources: Vec<(String, String)>) -> (r: Result<tera::Tera, tera::Error>)
    requires
        all_fit(sources.deep_view()),
    ensures
        r is Ok <==> (forall|i: int|
            0 <= i < sources.deep_view().len() ==> template_parses(
                (#[trigger] sources.deep_view()[i]).1,
            )),
        r matches Ok(templates) ==> templates_held(templates) == by_name(sources.deep_view()),
{
    let mut templates = tera::Tera::default();
    templates.add_raw_templates(sources)?;
    Ok(templates)
}

/// `tera::Tera::render` of a template with listeners under `listeners`. The outcome is a function of the
/// sources, the name of the template and the listeners, and where there is a text, the set has the
/// template. Sets with sources that do not fit are left out: a template of theirs may not end, may panic,
/// and may read the clock and the environment.
#[verifier::external_body]
fn render_listeners(
    templates: &tera::Tera,
    template: &str,
    listeners: &Vec<TeraListener>,
) -> (r: Result<String, tera::Error>)
    requires
        renders_safely(templates_held(*templates)),
    ensures
        rendered(r) == listeners_rendered(
            templates_held(*templates),
            template@,
            listeners.deep_view(),
        ),
        r is Ok ==> templates_held(*templates).contains_key(template@),
{
    let listener = |l: &TeraListener| Value::from_iter([("name", Value::from(l.name.as_str())), ("port", l.port.into()), ("route_name", l.route_name.as_str().into()), ("ip_address", l.ip_address.as_str().into())]);
    let mut context = tera::Context::new();
    context.insert("listeners", &listeners.iter().map(listener).collect::<Value>());
    templates.render(template, &context)
}

/// `tera::Tera::render` of a template with the routes of a listener under `route`. The outcome is a function
/// of the sources, the name of the template and the routes, and where there is a text, the set has the
/// template. Sets with sources that do not fit are left out, as where listeners are rendered.
#[verifier::external_body]
fn render_route(templates: &tera::Tera, template: &str, route: &TeraRoute) -> (r: Result<
    String,
    tera::Error,
>)
    requires
        renders_safely(templates_held(*templates)),
    ensures
        rendered(r) == route_rendered(
            templates_held(*templates),
            template@,
            route.deep_view(),
        ),
        r is Ok ==> templates_held(*templates).contains_key(template@),
{
    let hosts = route.virtual_hosts.iter().map(|h| {
        let configs = h.route_configs.iter().map(|c| {
            let path = c.path.as_ref().map(|p| Value::from_iter([("path", &*p.path), ("match_type", &*p.match_type)]));
            Value::from_iter([("path", path.into()), ("cluster_name", Value::from(&*c.cluster_name))])
        });
        Value::from_iter([("hostname", Value::from(&*h.hostname)), ("route_configs", configs.collect())])
    });
    let mut context = tera::Context::new();
    context.insert("route", &Value::from_iter([("name", Value::from(&*route.name)), ("virtual_hosts", hosts.collect())]));
    templates.render(template, &context)
}

/// `tera::Tera::render` of a template with clusters under `clusters`. The outcome is a function of the
/// sources, the name of the template and the clusters, and where there is a text, the set has the template.
/// Sets with sources that do not fit are left out, as where listeners are rendered.
#[verifier::external_body]
fn render_clusters(
    templates: &tera::Tera,
    template: &str,
    clusters: &Vec<TeraCluster>,
) -> (r: Result<String, tera::Error>)
    requires
        renders_safely(templates_held(*templates)),
    ensures
        rendered(r) == clusters_rendered(
            templates_held(*templates),
            template@,
            clusters.deep_view(),
        ),
        r is Ok ==> templates_held(*templates).contains_key(template@),
{
    let endpoint = |e: &TeraEndpoint| Value::from_iter([("service", Value::from(e.service.as_str())), ("port", e.port.into()), ("weight", e.weight.into())]);
    let cluster = |c: &TeraCluster| Value::from_iter([("name", Value::from(c.name.as_str())), ("endpoints", c.endpoints.iter().map(endpoint).collect())]);
    let mut context = tera::Context::new();
    context.insert("clusters", &clusters.iter().map(cluster).collect::<Value>());
    templates.render(template, &context)
}

/// `tera::Tera::render` of a template with what a data plane starts with: the secrets under `secrets`,
/// where there are some, and the control plane under `control_plane_host` and `control_plane_port`. The
/// outcome is a function of the sources, the name of the template and what the data plane starts with, and
/// where there is a text, the set has the template. Sets with sources that do not fit are left out, as
/// where listeners are rendered.
#[verifier::external_body]
fn render_bootstrap(
    templates: &tera::Tera,
    template: &str,
    bootstrap: &TeraBootstrap,
) -> (r: Result<String, tera::Error>)
    requires
        renders_safely(templates_held(*templates)),
    ensures
        rendered(r) == bootstrap_rendered(
            templates_held(*templates),
            template@,
            bootstrap.deep_view(),
        ),
        r is Ok ==> templates_held(*templates).contains_key(template@),
{
    let secret = |s: &TeraSecret| Value::from_iter([("name", s.name.as_str()), ("certificate", s.certificate.as_str()), ("key", s.key.as_str())]);
    let mut context = tera::Context::new();
    if let Some(secrets) = &bootstrap.secrets {
        context.insert("secrets", &secrets.iter().map(secret).collect::<Value>());
    }
    context.insert("control_plane_host", &bootstrap.control_plane_host);
    context.insert("control_plane_port", &bootstrap.control_plane_port);
    templates.render(template, &context)
}

proof fn safe_by_name(sources: Seq<(Seq<char>, Seq<char>)>)
    requires
        all_fit(sources),
    ensures
        renders_safely(by_name(sources)),
    decreases sources.len(),
{
    if sources.len() > 0 {
        let shorter = sources.drop_last();
        assert forall|i: int| 0 <= i < shorter.len() implies fits((#[trigger] shorter[i]).1) by {
            assert(fits(sources[i].1));
        }
        safe_by_name(shorter);
        assert(fits(sources[sources.len() - 1].1));
        let before = by_name(shorter);
        assert forall|name: Seq<char>| #[trigger] by_name(sources).contains_key(name) implies fits(
            by_name(sources)[name],
        ) by {
            if name != sources.last().0 {
                assert(before.contains_key(name));
            }
        }
    }
}

/// Why no set of templates was made: the source of a template does not fit, or one that fits cannot be read.
#[derive(Debug)]
pub enum TemplatesError {
    Unfit(String),
    Malformed(tera::Error),
}

/// A set of templates, each of which can be rendered.
pub struct Templates {
    templates: tera::Tera,
}

impl Templates {
    /// The sources of the templates by their names.
    pub closed spec fn sources(&self) -> Map<Seq<char>, Seq<char>> {
        templates_held(self.templates)
    }

    /// Whether each source is one that can be rendered.
    #[verifier::type_invariant]
    pub open spec fn safe(&self) -> bool {
        renders_safely(self.sources())
    }

    /// Reads templates, each a name and a source. The first source that does not fit is named.
    pub fn new(sources: Vec<(String, String)>) -> (r: Result<Templates, TemplatesError>)
        ensures
            match r {
                Ok(templates) => {
                    &&& all_fit(sources.deep_view())
                    &&& all_parse(sources.deep_view())
                    &&& templates.sources() == by_name(sources.deep_view())
                    &&& templates.safe()
                },
                Err(TemplatesError::Unfit(name)) => exists|i: int|
                    {
                        &&& 0 <= i < sources.deep_view().len()
                        &&& (#[trigger] sources.deep_view()[i]).0 == name@
                        &&& !fits(sources.deep_view()[i].1)
                        &&& all_fit(sources.deep_view().take(i))
                    },
                Err(TemplatesError::Malformed(_)) => all_fit(sources.deep_view()) && !all_parse(
                    sources.deep_view(),
                ),
            },
    {
        let ghost all = sources.deep_view();
        let mut i: usize = 0;
        while i < sources.len()
            invariant
                i <= sources.len(),
                sources.deep_view() == all,
                forall|j: int| 0 <= j < i ==> fits((#[trigger] all[j]).1),
            decreases sources.len() - i,
        {
            assert(all[i as int] == sources[i as int].deep_view());
            if !check_source(sources[i].1.as_str()) {
                assert(all_fit(all.take(i as int))) by {
                    assert forall|j: int| 0 <= j < i implies fits((#[trigger] all.take(i as int)[j]).1) by {
                        assert(fits(all[j].1));
                    }
                }
                return Err(TemplatesError::Unfit(sources[i].0.dup()));
            }
            i = i + 1;
        }
        proof {
            safe_by_name(all);
        }
        match read_templates(sources) {
            Ok(templates) => Ok(Templates { templates }),
            Err(error) => Err(TemplatesError::Malformed(error)),
        }
    }

    /// Renders a template with listeners.
    pub fn render_listeners(&self, template: &str, listeners: &Vec<TeraListener>) -> (r: Result<
        String,
        TemplateError,
    >)
        ensures
            renders_as(
                r,
                template@,
                listeners_rendered(self.sources(), template@, listeners.deep_view()),
            ),
            r is Ok ==> self.sources().contains_key(template@),
    {
        proof {
            use_type_invariant(self);
        }
        name_failure(template, render_listeners(&self.templates, template, listeners))
    }

    /// Renders a template with the routes of a listener.
    pub fn render_route(&self, template: &str, route: &TeraRoute) -> (r: Result<
        String,
        TemplateError,
    >)
        ensures
            renders_as(
                r,
                template@,
                route_rendered(self.sources(), template@, route.deep_view()),
            ),
            r is Ok ==> self.sources().contains_key(template@),
    {
        proof {
            use_type_invariant(self);
        }
        name_failure(template, render_route(&self.templates, template, route))
    }

    /// Renders a template with clusters.
    pub fn render_clusters(&self, template: &str, clusters: &Vec<TeraCluster>) -> (r: Result<
        String,
        TemplateError,
    >)
        ensures
            renders_as(
                r,
                template@,
                clusters_rendered(self.sources(), template@, clusters.deep_view()),
            ),
            r is Ok ==> self.sources().contains_key(template@),
    {
        proof {
            use_type_invariant(self);
        }
        name_failure(template, render_clusters(&self.templates, template, clusters))
    }

    /// Renders a template with what a data plane starts with.
    pub fn render_bootstrap(&self, template: &str, bootstrap: &TeraBootstrap) -> (r: Result<
        String,
        TemplateError,
    >)
        ensures
            renders_as(
                r,
                template@,
                bootstrap_rendered(self.sources(), template@, bootstrap.deep_view()),
            ),
            r is Ok ==> self.sources().contains_key(template@),
    {
        proof {
            use_type_invariant(self);
        }
        name_failure(template, render_bootstrap(&self.templates, template, bootstrap))
    }
}

/// A template is held under its name, by the last source of that name; nothing else is held.
pub proof fn law_sources_by_name(sources: Seq<(Seq<char>, Seq<char>)>, i: int, name: Seq<char>)
    ensures
        0 <= i < sources.len() && sources[i].0 == name && (forall|j: int|
            i < j < sources.len() ==> (#[trigger] sources[j]).0 != name) ==> by_name(
            sources,
        ).contains_key(name) && by_name(sources)[name] == sources[i].1,
        (forall|j: int| 0 <= j < sources.len() ==> (#[trigger] sources[j]).0 != name) ==> !by_name(
            sources,
        ).contains_key(name),
    decreases sources.len(),
{
    if sources.len() > 0 {
        let shorter = sources.drop_last();
        law_sources_by_name(shorter, i, name);
        assert(sources[sources.len() - 1] == sources.last());
        if 0 <= i < sources.len() && sources[i].0 == name && (forall|j: int|
            i < j < sources.len() ==> (#[trigger] sources[j]).0 != name) {
            assert forall|j: int| i < j < shorter.len() implies (#[trigger] shorter[j]).0 != name by {
                assert(sources[j].0 != name);
            }
        }
        if forall|j: int| 0 <= j < sources.len() ==> (#[trigger] sources[j]).0 != name {
            assert forall|j: int| 0 <= j < shorter.len() implies (#[trigger] shorter[j]).0 != name by {
                assert(sources[j].0 != name);
            }
        }
    }
}

/// A rendering gives its text where there is one, and otherwise names the template; a set of which a source
/// does not fit is not one that renders.
pub proof fn law_rendering(
    outcome: Result<String, TemplateError>,
    template: Seq<char>,
    expected: Option<Seq<char>>,
    templates: Map<Seq<char>, Seq<char>>,
    name: Seq<char>,
)
    ensures
        renders_as(outcome, template, expected) && expected is Some ==> outcome is Ok && outcome->Ok_0@
            == expected->0,
        renders_as(outcome, template, expected) && expected is None ==> outcome is Err
            && outcome->Err_0.template@ == template,
        templates.contains_key(name) && !fits(templates[name]) ==> !renders_safely(templates),
{
}

} // verus!

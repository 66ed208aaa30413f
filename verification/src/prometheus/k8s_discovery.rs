//! Finding the endpoints to scrape in what Kubernetes announces.
use std::sync::Arc;

use vstd::prelude::*;

pub use super::metadata_cache::{NodeMetadata, PodMetadata, ServiceMetadata};

use super::metadata_cache::{
    node_metadata, node_view, pod_metadata, pod_view, service_metadata, service_view, NodeView,
    PodView, ServiceView,
};
use super::objects::{
    find_stored, internal_ip, internal_ip_of_node, node_addresses, node_of_pod, pod_node,
    preferred_ip, preferred_ip_of_node, stored, EndpointAddress, EndpointPort, EndpointSubset,
    Endpoints, Node, Pod, Service,
};
use crate::number::{
    decimal, decimal_i64, decimal_u64, i32_value, parse_i32, parse_unsigned, unsigned_value,
};
use crate::share::share_opt;
use crate::text::{copy, copy_opt, list_has, opt_text, same, texts};

verus! {

// ---------------------------------------------------------------------------
// Configuration
// ---------------------------------------------------------------------------
/// How targets are found.
#[derive(Clone, Debug)]
pub struct KubernetesSdConfig {
    /// The kind of object that targets are found from.
    pub role: KubernetesRole,
    /// The namespaces that are looked at. All of them, where none is named.
    pub namespaces: Vec<String>,
    /// Which labels an object must have.
    pub label_selector: Option<String>,
    /// Which fields an object must have.
    pub field_selector: Option<String>,
    /// Which metadata is added to metrics.
    pub metadata_labels: MetadataLabelsConfig,
    /// The name that tells this job's metrics apart.
    pub job_name: String,
    /// `http` or `https`.
    pub scheme: String,
    /// The name or the number of the port to scrape.
    pub port: Option<String>,
    /// The path to scrape.
    pub metrics_path: String,
    /// How many batches wait to be sent. By the number of targets, where absent.
    pub send_queue_capacity: Option<usize>,
    /// How many workers send. By the number of targets, where absent.
    pub send_worker_count: Option<usize>,
    /// How many targets are scraped at once. By the number of targets, where absent.
    pub scrape_concurrency: Option<usize>,
    /// How long sending one batch may take, in seconds.
    pub send_timeout_secs: u64,
}

/// A limit that is configured is at least 1.
pub open spec fn limit_valid(limit: Option<usize>) -> bool {
    limit matches Some(n) ==> n > 0
}

fn is_valid(limit: Option<usize>) -> (r: bool)
    ensures
        r == limit_valid(limit),
{
    match limit {
        Some(n) => n > 0,
        None => true,
    }
}

impl KubernetesSdConfig {
    /// Every limit that is configured is at least 1, and so is the time that sending
    /// may take.
    pub open spec fn limits_valid(&self) -> bool {
        &&& limit_valid(self.send_queue_capacity)
        &&& limit_valid(self.send_worker_count)
        &&& limit_valid(self.scrape_concurrency)
        &&& self.send_timeout_secs > 0
    }

    /// Whether every limit that is configured is at least 1, and so is the time that
    /// sending may take.
    pub fn has_valid_limits(&self) -> (r: bool)
        ensures
            r == self.limits_valid(),
    {
        is_valid(self.send_queue_capacity) && is_valid(self.send_worker_count) && is_valid(
            self.scrape_concurrency,
        ) && self.send_timeout_secs > 0
    }
}

/// The scheme that is taken where none is configured.
pub fn default_scheme() -> (r: String)
    ensures
        r@ == "http"@,
{
    copy("http")
}

/// The path that is taken where none is configured.
pub fn default_metrics_path() -> (r: String)
    ensures
        r@ == "/metrics"@,
{
    copy("/metrics")
}

/// The kind of object that targets are found from.
#[derive(Clone, Copy, Debug, PartialEq, Eq, Structural)]
pub enum KubernetesRole {
    /// What stands behind services.
    Endpoints,
    /// Nodes.
    Node,
}

/// Which metadata is added to metrics.
#[derive(Clone, Debug)]
pub struct MetadataLabelsConfig {
    /// Whether the namespace is added.
    pub namespace: bool,
    /// Whether the pod's name is added.
    pub pod_name: bool,
    /// Whether the node's name is added.
    pub node_name: bool,
    /// Whether the node's address is added.
    pub host_ip: bool,
    /// Whether the pod's address is added.
    pub pod_ip: bool,
    /// Whether the service's name is added.
    pub service_name: bool,
    /// Which labels of the pod are added.
    pub pod_labels: LabelSelector,
    /// Which annotations of the pod are added.
    pub pod_annotations: LabelSelector,
    /// Which labels of the service are added.
    pub service_labels: LabelSelector,
    /// Which annotations of the service are added.
    pub service_annotations: LabelSelector,
    /// Which labels of the node are added.
    pub node_labels: LabelSelector,
    /// What the names of all added tags begin with.
    pub label_prefix: String,
}

/// Which labels or annotations are taken.
#[derive(Clone, Debug)]
pub enum LabelSelector {
    /// All of them, where the text is `*`.
    All(String),
    /// Those named.
    Specific(Vec<String>),
}

impl Default for LabelSelector {
    fn default() -> (r: LabelSelector)
        ensures
            r.selects_none(),
    {
        LabelSelector::Specific(Vec::new())
    }
}

impl LabelSelector {
    /// Every label is taken.
    pub open spec fn selects_all(&self) -> bool {
        *self matches LabelSelector::All(s) && s@ == "*"@
    }

    /// The selector names no label.
    pub open spec fn selects_none(&self) -> bool {
        *self matches LabelSelector::Specific(v) && v@.len() == 0
    }

    /// The label `key` is taken.
    pub open spec fn selects(&self, key: Seq<char>) -> bool {
        match *self {
            LabelSelector::All(s) => s@ == "*"@,
            LabelSelector::Specific(keys) => texts(keys@).contains(key),
        }
    }

    /// Whether every label is taken.
    pub fn is_all(&self) -> (r: bool)
        ensures
            r == self.selects_all(),
    {
        match self {
            LabelSelector::All(s) => same(s.as_str(), "*"),
            _ => false,
        }
    }

    /// Whether the selector names no label.
    pub fn is_none(&self) -> (r: bool)
        ensures
            r == self.selects_none(),
    {
        match self {
            LabelSelector::Specific(v) => v.len() == 0,
            _ => false,
        }
    }

    /// The named labels, where there are any.
    pub fn keys(&self) -> (r: Option<&Vec<String>>)
        ensures
            match r {
                Some(k) => (*self matches LabelSelector::Specific(v) && v == *k) && k@.len() > 0,
                None => self is All || self.selects_none(),
            },
    {
        match self {
            LabelSelector::Specific(v) => if v.len() > 0 {
                Some(v)
            } else {
                None
            },
            _ => None,
        }
    }

    /// Whether the label `key` is taken.
    pub fn takes(&self, key: &str) -> (r: bool)
        ensures
            r == self.selects(key@),
    {
        match self {
            LabelSelector::All(s) => same(s.as_str(), "*"),
            LabelSelector::Specific(keys) => list_has(keys, key),
        }
    }
}

impl Default for MetadataLabelsConfig {
    fn default() -> (r: MetadataLabelsConfig)
        ensures
            r.namespace && r.pod_name && r.node_name && r.host_ip && r.pod_ip && r.service_name,
            r.pod_labels.selects_none() && r.pod_annotations.selects_none(),
            r.service_labels.selects_none() && r.service_annotations.selects_none(),
            r.node_labels.selects_none(),
            r.label_prefix@ == ""@,
    {
        MetadataLabelsConfig {
            namespace: default_true(),
            pod_name: default_true(),
            node_name: default_true(),
            host_ip: default_true(),
            pod_ip: default_true(),
            service_name: default_true(),
            pod_labels: LabelSelector::default(),
            pod_annotations: LabelSelector::default(),
            service_labels: LabelSelector::default(),
            service_annotations: LabelSelector::default(),
            node_labels: LabelSelector::default(),
            label_prefix: default_label_prefix(),
        }
    }
}

/// What a switch is set to where it is not configured.
pub fn default_true() -> (r: bool)
    ensures
        r,
{
    true
}

/// The prefix that is taken where none is configured.
pub fn default_label_prefix() -> (r: String)
    ensures
        r@ == ""@,
{
    copy("")
}

// ---------------------------------------------------------------------------
// Targets
// ---------------------------------------------------------------------------
/// An endpoint to scrape, with what is known of where it runs.
#[derive(Debug)]
pub struct DiscoveredTarget {
    /// Where the metrics are.
    pub url: String,
    /// The job that the target belongs to.
    pub job_name: String,
    /// The node that it runs on.
    pub node_metadata: Option<Arc<NodeMetadata>>,
    /// The service that it stands behind.
    pub service_metadata: Option<Arc<ServiceMetadata>>,
    /// The pod that it runs in.
    pub pod_metadata: Option<Arc<PodMetadata>>,
}

/// A target, read as characters.
#[verifier::ext_equal]
pub struct TargetView {
    pub url: Seq<char>,
    pub job_name: Seq<char>,
    pub node: Option<NodeView>,
    pub service: Option<ServiceView>,
    pub pod: Option<PodView>,
}

/// A shared pod's metadata.
pub open spec fn pod_of(m: Option<Arc<PodMetadata>>) -> Option<PodView> {
    match m {
        Some(p) => Some((*p)@),
        None => None,
    }
}

/// A shared node's metadata.
pub open spec fn node_of(m: Option<Arc<NodeMetadata>>) -> Option<NodeView> {
    match m {
        Some(n) => Some((*n)@),
        None => None,
    }
}

/// A shared service's metadata.
pub open spec fn service_of(m: Option<Arc<ServiceMetadata>>) -> Option<ServiceView> {
    match m {
        Some(s) => Some((*s)@),
        None => None,
    }
}

impl View for DiscoveredTarget {
    type V = TargetView;

    open spec fn view(&self) -> TargetView {
        TargetView {
            url: self.url@,
            job_name: self.job_name@,
            node: node_of(self.node_metadata),
            service: service_of(self.service_metadata),
            pod: pod_of(self.pod_metadata),
        }
    }
}

/// Targets, read as characters.
pub open spec fn target_views(v: Seq<DiscoveredTarget>) -> Seq<TargetView> {
    v.map_values(|t: DiscoveredTarget| t@)
}

impl Clone for DiscoveredTarget {
    fn clone(&self) -> (r: DiscoveredTarget)
        ensures
            r@ == self@,
    {
        DiscoveredTarget {
            url: copy(self.url.as_str()),
            job_name: copy(self.job_name.as_str()),
            node_metadata: share_opt(&self.node_metadata),
            service_metadata: share_opt(&self.service_metadata),
            pod_metadata: share_opt(&self.pod_metadata),
        }
    }
}

impl DiscoveredTarget {
    /// The name of the node.
    pub fn node_name(&self) -> (r: Option<&str>)
        ensures
            match (r, self@.node) {
                (Some(s), Some(n)) => s@ == n.name,
                (None, None) => true,
                _ => false,
            },
    {
        match &self.node_metadata {
            Some(m) => Some(m.name.as_str()),
            None => None,
        }
    }

    /// The name of the pod.
    pub fn pod_name(&self) -> (r: Option<&str>)
        ensures
            match (r, self@.pod) {
                (Some(s), Some(p)) => s@ == p.name,
                (None, None) => true,
                _ => false,
            },
    {
        match &self.pod_metadata {
            Some(m) => Some(m.name.as_str()),
            None => None,
        }
    }

    /// The name of the service.
    pub fn service_name(&self) -> (r: Option<&str>)
        ensures
            match (r, self@.service) {
                (Some(s), Some(v)) => s@ == v.name,
                (None, None) => true,
                _ => false,
            },
    {
        match &self.service_metadata {
            Some(m) => Some(m.name.as_str()),
            None => None,
        }
    }

    /// The namespace of the service.
    pub fn service_namespace(&self) -> (r: Option<&str>)
        ensures
            match (r, self@.service) {
                (Some(s), Some(v)) => s@ == v.namespace,
                (None, None) => true,
                _ => false,
            },
    {
        match &self.service_metadata {
            Some(m) => Some(m.namespace.as_str()),
            None => None,
        }
    }

    /// The namespace of the pod.
    pub fn pod_namespace(&self) -> (r: Option<&str>)
        ensures
            match (r, self@.pod) {
                (Some(s), Some(p)) => s@ == p.namespace,
                (None, None) => true,
                _ => false,
            },
    {
        match &self.pod_metadata {
            Some(m) => Some(m.namespace.as_str()),
            None => None,
        }
    }
}

// ---------------------------------------------------------------------------
// What is watched
// ---------------------------------------------------------------------------
/// How one kind of object is watched.
#[derive(Clone, Debug)]
pub struct WatchConfig {
    /// Which fields an object must have.
    pub field_selector: Option<String>,
    /// Which labels an object must have.
    pub label_selector: Option<String>,
    /// How long an object is kept after it was deleted, in seconds.
    pub delete_delay_secs: u64,
}

impl WatchConfig {
    /// Every object is watched, and kept for `delay` seconds after its deletion.
    pub open spec fn unselective(&self, delay: u64) -> bool {
        self.field_selector is None && self.label_selector is None && self.delete_delay_secs
            == delay
    }

    /// The configured objects are watched, and kept for `delay` seconds after
    /// their deletion.
    pub open spec fn selective(&self, config: KubernetesSdConfig, delay: u64) -> bool {
        opt_text(self.field_selector) == opt_text(config.field_selector) && opt_text(
            self.label_selector,
        ) == opt_text(config.label_selector) && self.delete_delay_secs == delay
    }

    fn all(delay: u64) -> (r: WatchConfig)
        ensures
            r.unselective(delay),
    {
        WatchConfig { field_selector: None, label_selector: None, delete_delay_secs: delay }
    }

    fn selected(config: &KubernetesSdConfig, delay: u64) -> (r: WatchConfig)
        ensures
            r.selective(*config, delay),
    {
        WatchConfig {
            field_selector: copy_opt(&config.field_selector),
            label_selector: copy_opt(&config.label_selector),
            delete_delay_secs: delay,
        }
    }
}

/// What discovery watches, and how often it looks at the result.
#[derive(Clone, Debug)]
pub struct WatchPlan {
    /// How nodes are watched.
    pub nodes: WatchConfig,
    /// How endpoints are watched.
    pub endpoints: WatchConfig,
    /// How pods are watched.
    pub pods: WatchConfig,
    /// How services are watched.
    pub services: WatchConfig,
    /// How long one round of discovery waits for the next, in seconds.
    pub poll_secs: u64,
}

/// That a plan watches what discovery with that configuration looks at.
pub open spec fn watches(p: WatchPlan, config: KubernetesSdConfig) -> bool {
    &&& if config.role is Node {
        p.nodes.selective(config, 60)
    } else {
        p.nodes.unselective(60)
    }
    &&& p.endpoints.selective(config, 30)
    &&& p.pods.unselective(60)
    &&& p.services.unselective(60)
    &&& p.poll_secs == 5
}

// ---------------------------------------------------------------------------
// Discovery
// ---------------------------------------------------------------------------
/// The objects that are known at one moment.
#[derive(Clone, Debug)]
pub struct Snapshot {
    /// The endpoints.
    pub endpoints: Vec<Endpoints>,
    /// The pods.
    pub pods: Vec<Pod>,
    /// The services.
    pub services: Vec<Service>,
    /// The nodes.
    pub nodes: Vec<Node>,
}

/// `scheme://host:port/path`.
pub open spec fn target_url(config: KubernetesSdConfig, host: Seq<char>, port: int) -> Seq<char> {
    config.scheme@ + "://"@ + host + ":"@ + decimal(port) + config.metrics_path@
}

/// The configured port is `p`: by its number where the configuration is one,
/// else by its name.
pub open spec fn port_fits(config: KubernetesSdConfig, p: EndpointPort) -> bool {
    match config.port {
        None => true,
        Some(f) => match i32_value(f@) {
            Some(n) => p.port == n,
            None => opt_text(p.name) == Some(f@),
        },
    }
}

/// The pod that an address stands for.
pub open spec fn pod_behind(snapshot: Snapshot, namespace: Seq<char>, a: EndpointAddress) -> Option<
    Pod,
> {
    match a.target_ref {
        Some(r) => match r.name {
            Some(name) => if opt_text(r.kind) == Some("Pod"@) {
                stored(snapshot.pods@, name@, Some(namespace))
            } else {
                None
            },
            None => None,
        },
        None => None,
    }
}

/// What is known of a pod.
pub open spec fn known_pod(p: Option<Pod>) -> Option<PodView> {
    match p {
        Some(pod) => Some(pod_view(pod)),
        None => None,
    }
}

/// What is known of the node of that name.
pub open spec fn known_node(snapshot: Snapshot, name: Seq<char>) -> Option<NodeView> {
    match stored(snapshot.nodes@, name, None) {
        Some(n) => Some(node_view(name, n, internal_ip(node_addresses(n)))),
        None => None,
    }
}

/// What is known of the node that a pod runs on.
pub open spec fn known_node_of_pod(snapshot: Snapshot, p: Option<Pod>) -> Option<NodeView> {
    match p {
        Some(pod) => match pod_node(pod) {
            Some(name) => known_node(snapshot, name),
            None => None,
        },
        None => None,
    }
}

/// What is known of the service of that name.
pub open spec fn known_service(
    snapshot: Snapshot,
    name: Seq<char>,
    namespace: Seq<char>,
) -> Option<ServiceView> {
    match stored(snapshot.services@, name, Some(namespace)) {
        Some(s) => Some(service_view(s)),
        None => None,
    }
}

/// The targets at one address: one for each port that fits.
pub open spec fn targets_at(
    config: KubernetesSdConfig,
    ip: Seq<char>,
    ports: Seq<EndpointPort>,
    node: Option<NodeView>,
    service: Option<ServiceView>,
    pod: Option<PodView>,
) -> Seq<TargetView>
    decreases ports.len(),
{
    if ports.len() == 0 {
        Seq::empty()
    } else {
        let before = targets_at(config, ip, ports.drop_last(), node, service, pod);
        if port_fits(config, ports.last()) {
            before.push(
                TargetView {
                    url: target_url(config, ip, ports.last().port as int),
                    job_name: config.job_name@,
                    node,
                    service,
                    pod,
                },
            )
        } else {
            before
        }
    }
}

/// The targets at the addresses of a subset.
pub open spec fn targets_of_addresses(
    config: KubernetesSdConfig,
    snapshot: Snapshot,
    namespace: Seq<char>,
    service: Option<ServiceView>,
    addresses: Seq<EndpointAddress>,
    ports: Seq<EndpointPort>,
) -> Seq<TargetView>
    decreases addresses.len(),
{
    if addresses.len() == 0 {
        Seq::empty()
    } else {
        let a = addresses.last();
        let pod = pod_behind(snapshot, namespace, a);
        targets_of_addresses(config, snapshot, namespace, service, addresses.drop_last(), ports)
            + targets_at(
            config,
            a.ip@,
            ports,
            known_node_of_pod(snapshot, pod),
            service,
            known_pod(pod),
        )
    }
}

/// The targets of the subsets. A subset without addresses or ports has none.
pub open spec fn targets_of_subsets(
    config: KubernetesSdConfig,
    snapshot: Snapshot,
    namespace: Seq<char>,
    service: Option<ServiceView>,
    subsets: Seq<EndpointSubset>,
) -> Seq<TargetView>
    decreases subsets.len(),
{
    if subsets.len() == 0 {
        Seq::empty()
    } else {
        let before = targets_of_subsets(
            config,
            snapshot,
            namespace,
            service,
            subsets.drop_last(),
        );
        match (subsets.last().addresses, subsets.last().ports) {
            (Some(a), Some(p)) => before + targets_of_addresses(
                config,
                snapshot,
                namespace,
                service,
                a@,
                p@,
            ),
            _ => before,
        }
    }
}

/// The targets behind one service. Without a name or a namespace there are none.
pub open spec fn targets_of_endpoints(
    config: KubernetesSdConfig,
    snapshot: Snapshot,
    e: Endpoints,
) -> Seq<TargetView> {
    match (e.metadata.name, e.metadata.namespace, e.subsets) {
        (Some(name), Some(ns), Some(subsets)) => targets_of_subsets(
            config,
            snapshot,
            ns@,
            known_service(snapshot, name@, ns@),
            subsets@,
        ),
        _ => Seq::empty(),
    }
}

/// The namespace of the endpoints is one that is looked at.
pub open spec fn in_scope(config: KubernetesSdConfig, e: Endpoints) -> bool {
    match e.metadata.namespace {
        Some(ns) => config.namespaces@.len() == 0 || texts(config.namespaces@).contains(ns@),
        None => false,
    }
}

/// The targets behind all services in scope.
pub open spec fn targets_of_all_endpoints(
    config: KubernetesSdConfig,
    snapshot: Snapshot,
    all: Seq<Endpoints>,
) -> Seq<TargetView>
    decreases all.len(),
{
    if all.len() == 0 {
        Seq::empty()
    } else {
        let before = targets_of_all_endpoints(config, snapshot, all.drop_last());
        if in_scope(config, all.last()) {
            before + targets_of_endpoints(config, snapshot, all.last())
        } else {
            before
        }
    }
}

/// The target on one node. There is none on a node without a name or an address,
/// nor where no port is configured; a port that is no port number is an error.
pub open spec fn targets_of_node(config: KubernetesSdConfig, snapshot: Snapshot, n: Node) -> Result<
    Seq<TargetView>,
    Seq<char>,
> {
    match (n.metadata.name, preferred_ip(node_addresses(n)), config.port) {
        (Some(name), Some(ip), Some(p)) => match unsigned_value(p@, 10, 0xffff) {
            Ok(port) => Ok(
                seq![
                    TargetView {
                        url: target_url(config, ip, port as int),
                        job_name: config.job_name@,
                        node: known_node(snapshot, name@),
                        service: None,
                        pod: None,
                    },
                ],
            ),
            Err(_) => Err("Invalid port: "@ + p@),
        },
        _ => Ok(Seq::empty()),
    }
}

/// The targets on all nodes. A node with an error has none.
pub open spec fn targets_of_all_nodes(
    config: KubernetesSdConfig,
    snapshot: Snapshot,
    all: Seq<Node>,
) -> Seq<TargetView>
    decreases all.len(),
{
    if all.len() == 0 {
        Seq::empty()
    } else {
        let before = targets_of_all_nodes(config, snapshot, all.drop_last());
        match targets_of_node(config, snapshot, all.last()) {
            Ok(t) => before + t,
            Err(_) => before,
        }
    }
}

/// The targets that a snapshot holds.
pub open spec fn discovered(config: KubernetesSdConfig, snapshot: Snapshot) -> Seq<TargetView> {
    match config.role {
        KubernetesRole::Endpoints => targets_of_all_endpoints(
            config,
            snapshot,
            snapshot.endpoints@,
        ),
        KubernetesRole::Node => targets_of_all_nodes(config, snapshot, snapshot.nodes@),
    }
}

/// Finds targets, and keeps those that were found last.
#[derive(Debug)]
pub struct K8sServiceDiscovery {
    config: KubernetesSdConfig,
    targets: Vec<DiscoveredTarget>,
}

fn write_url(config: &KubernetesSdConfig, host: &str, port: &str) -> (r: String)
    ensures
        r@ == config.scheme@ + "://"@ + host@ + ":"@ + port@ + config.metrics_path@,
{
    let mut s = copy(config.scheme.as_str());
    s.append("://");
    s.append(host);
    s.append(":");
    s.append(port);
    s.append(config.metrics_path.as_str());
    s
}

impl K8sServiceDiscovery {
    /// The configuration.
    pub closed spec fn config(&self) -> KubernetesSdConfig {
        self.config
    }

    /// The targets that were found last.
    pub closed spec fn targets(&self) -> Seq<TargetView> {
        target_views(self.targets@)
    }

    /// Discovery whose first targets are those of `snapshot`.
    pub fn new(config: KubernetesSdConfig, snapshot: &Snapshot) -> (r: K8sServiceDiscovery)
        ensures
            r.config() == config,
            r.targets() == discovered(config, *snapshot),
    {
        let mut d = K8sServiceDiscovery { config, targets: Vec::new() };
        d.refresh(snapshot);
        d
    }

    /// Which metadata is added to metrics.
    pub fn metadata_labels(&self) -> (r: &MetadataLabelsConfig)
        ensures
            *r == self.config().metadata_labels,
    {
        &self.config.metadata_labels
    }

    /// What has to be watched. The configured selectors apply to endpoints, and to
    /// nodes where targets are found from nodes.
    pub fn watch_plan(&self) -> (r: WatchPlan)
        ensures
            self.config().role is Node ==> r.nodes.selective(self.config(), 60),
            self.config().role is Endpoints ==> r.nodes.unselective(60),
            r.endpoints.selective(self.config(), 30),
            r.pods.unselective(60),
            r.services.unselective(60),
            r.poll_secs == 5,
            watches(r, self.config()),
    {
        let nodes = match self.config.role {
            KubernetesRole::Node => WatchConfig::selected(&self.config, 60),
            KubernetesRole::Endpoints => WatchConfig::all(60),
        };
        WatchPlan {
            nodes,
            endpoints: WatchConfig::selected(&self.config, 30),
            pods: WatchConfig::all(60),
            services: WatchConfig::all(60),
            poll_secs: 5,
        }
    }

    /// The targets that were found last.
    pub fn get_targets(&self) -> (r: Vec<DiscoveredTarget>)
        ensures
            target_views(r@) == self.targets(),
    {
        let mut r: Vec<DiscoveredTarget> = Vec::new();
        let n: usize = self.targets.len();
        let mut i: usize = 0;
        while i < n
            invariant
                n == self.targets@.len(),
                i <= n,
                target_views(r@) == self.targets().take(i as int),
            decreases n - i,
        {
            let ghost was = r@;
            let t = self.targets[i].clone();
            let ghost tv = t@;
            r.push(t);
            assert(tv == self.targets()[i as int]);
            assert(target_views(r@) =~= target_views(was).push(tv));
            assert(self.targets().take(i + 1) =~= self.targets().take(i as int).push(tv));
            i = i + 1;
        }
        assert(self.targets().take(n as int) =~= self.targets());
        r
    }

    /// Looks for targets in `snapshot`, and keeps what is found in place of the
    /// targets that were found before.
    pub fn refresh(&mut self, snapshot: &Snapshot)
        ensures
            final(self).config() == old(self).config(),
            final(self).targets() == discovered(old(self).config(), *snapshot),
    {
        let found = self.discover_targets_internal(snapshot);
        self.targets = found;
    }

    /// The targets of `snapshot`, as the configured role has them.
    pub fn discover_targets_internal(&self, snapshot: &Snapshot) -> (r: Vec<DiscoveredTarget>)
        ensures
            target_views(r@) == discovered(self.config(), *snapshot),
    {
        match self.config.role {
            KubernetesRole::Endpoints => self.discover_from_endpoints(snapshot),
            KubernetesRole::Node => self.discover_from_nodes(snapshot),
        }
    }

    /// The targets behind all services in scope.
    pub fn discover_from_endpoints(&self, snapshot: &Snapshot) -> (r: Vec<DiscoveredTarget>)
        ensures
            target_views(r@) == targets_of_all_endpoints(
                self.config(),
                *snapshot,
                snapshot.endpoints@,
            ),
    {
        let mut r: Vec<DiscoveredTarget> = Vec::new();
        let n: usize = snapshot.endpoints.len();
        let mut i: usize = 0;
        let ghost all = snapshot.endpoints@;
        assert(target_views(r@) =~= Seq::<TargetView>::empty());
        assert(all.take(0) =~= Seq::<Endpoints>::empty());
        while i < n
            invariant
                n == snapshot.endpoints@.len(),
                all == snapshot.endpoints@,
                i <= n,
                target_views(r@) == targets_of_all_endpoints(
                    self.config(),
                    *snapshot,
                    all.take(i as int),
                ),
            decreases n - i,
        {
            let e = &snapshot.endpoints[i];
            assert(all.take(i + 1).drop_last() =~= all.take(i as int));
            let scope = match &e.metadata.namespace {
                Some(ns) => self.config.namespaces.len() == 0 || list_has(
                    &self.config.namespaces,
                    ns.as_str(),
                ),
                None => false,
            };
            if scope {
                let ghost was = r@;
                let mut found = self.discover_from_endpoints_internal(snapshot, e);
                let ghost more = found@;
                r.append(&mut found);
                assert(target_views(was + more) =~= target_views(was) + target_views(more));
            }
            i = i + 1;
        }
        assert(all.take(n as int) =~= all);
        r
    }

    /// The targets behind one service.
    pub fn discover_from_endpoints_internal(
        &self,
        snapshot: &Snapshot,
        endpoints: &Endpoints,
    ) -> (r: Vec<DiscoveredTarget>)
        ensures
            target_views(r@) == targets_of_endpoints(self.config(), *snapshot, *endpoints),
    {
        let mut r: Vec<DiscoveredTarget> = Vec::new();
        assert(target_views(r@) =~= Seq::<TargetView>::empty());
        let name = match &endpoints.metadata.name {
            Some(s) => s.as_str(),
            None => {
                return r;
            },
        };
        let namespace = match &endpoints.metadata.namespace {
            Some(s) => s.as_str(),
            None => {
                return r;
            },
        };
        let service: Option<Arc<ServiceMetadata>> = match find_stored(
            &snapshot.services,
            name,
            Some(namespace),
        ) {
            Some(s) => Some(Arc::new(service_metadata(s))),
            None => None,
        };
        let subsets = match &endpoints.subsets {
            Some(v) => v,
            None => {
                return r;
            },
        };
        let ghost sv = service_of(service);
        let n: usize = subsets.len();
        let mut i: usize = 0;
        let ghost all = subsets@;
        assert(all.take(0) =~= Seq::<EndpointSubset>::empty());
        while i < n
            invariant
                n == subsets@.len(),
                all == subsets@,
                i <= n,
                sv == service_of(service),
                target_views(r@) == targets_of_subsets(
                    self.config(),
                    *snapshot,
                    namespace@,
                    sv,
                    all.take(i as int),
                ),
            decreases n - i,
        {
            assert(all.take(i + 1).drop_last() =~= all.take(i as int));
            assert(all.take(i + 1).last() == all[i as int]);
            match (&subsets[i].addresses, &subsets[i].ports) {
                (Some(addresses), Some(ports)) => {
                    let ghost was = r@;
                    let mut found = self.discover_from_addresses(
                        snapshot,
                        namespace,
                        &service,
                        addresses,
                        ports,
                    );
                    let ghost more = found@;
                    r.append(&mut found);
                    assert(target_views(was + more) =~= target_views(was) + target_views(more));
                },
                _ => {},
            }
            i = i + 1;
        }
        assert(all.take(n as int) =~= all);
        r
    }

    fn discover_from_addresses(
        &self,
        snapshot: &Snapshot,
        namespace: &str,
        service: &Option<Arc<ServiceMetadata>>,
        addresses: &Vec<EndpointAddress>,
        ports: &Vec<EndpointPort>,
    ) -> (r: Vec<DiscoveredTarget>)
        ensures
            target_views(r@) == targets_of_addresses(
                self.config(),
                *snapshot,
                namespace@,
                service_of(*service),
                addresses@,
                ports@,
            ),
    {
        let mut r: Vec<DiscoveredTarget> = Vec::new();
        let n: usize = addresses.len();
        let mut i: usize = 0;
        let ghost all = addresses@;
        assert(target_views(r@) =~= Seq::<TargetView>::empty());
        assert(all.take(0) =~= Seq::<EndpointAddress>::empty());
        while i < n
            invariant
                n == addresses@.len(),
                all == addresses@,
                i <= n,
                target_views(r@) == targets_of_addresses(
                    self.config(),
                    *snapshot,
                    namespace@,
                    service_of(*service),
                    all.take(i as int),
                    ports@,
                ),
            decreases n - i,
        {
            assert(all.take(i + 1).drop_last() =~= all.take(i as int));
            assert(all.take(i + 1).last() == all[i as int]);
            let found_pod = self.find_pod(snapshot, namespace, &addresses[i]);
            let (pod, node): (Option<Arc<PodMetadata>>, Option<Arc<NodeMetadata>>) = match found_pod {
                Some(p) => {
                    let node = match node_of_pod(p) {
                        Some(node_name) => self.find_node(snapshot, node_name.as_str()),
                        None => None,
                    };
                    (Some(Arc::new(pod_metadata(p))), node)
                },
                None => (None, None),
            };
            let ghost was = r@;
            let mut found = self.discover_from_ports(
                addresses[i].ip.as_str(),
                ports,
                &node,
                service,
                &pod,
            );
            let ghost more = found@;
            r.append(&mut found);
            assert(target_views(was + more) =~= target_views(was) + target_views(more));
            i = i + 1;
        }
        assert(all.take(n as int) =~= all);
        r
    }

    fn find_pod<'a>(
        &self,
        snapshot: &'a Snapshot,
        namespace: &str,
        address: &EndpointAddress,
    ) -> (r: Option<&'a Pod>)
        ensures
            match r {
                Some(p) => pod_behind(*snapshot, namespace@, *address) == Some(*p),
                None => pod_behind(*snapshot, namespace@, *address) is None,
            },
    {
        match &address.target_ref {
            Some(target) => {
                let is_pod = match &target.kind {
                    Some(k) => same(k.as_str(), "Pod"),
                    None => false,
                };
                match &target.name {
                    Some(name) => if is_pod {
                        find_stored(&snapshot.pods, name.as_str(), Some(namespace))
                    } else {
                        None
                    },
                    None => None,
                }
            },
            None => None,
        }
    }

    fn find_node(&self, snapshot: &Snapshot, name: &str) -> (r: Option<Arc<NodeMetadata>>)
        ensures
            node_of(r) == known_node(*snapshot, name@),
    {
        match find_stored(&snapshot.nodes, name, None) {
            Some(n) => Some(Arc::new(node_metadata(name, n, internal_ip_of_node(n)))),
            None => None,
        }
    }

    fn discover_from_ports(
        &self,
        ip: &str,
        ports: &Vec<EndpointPort>,
        node: &Option<Arc<NodeMetadata>>,
        service: &Option<Arc<ServiceMetadata>>,
        pod: &Option<Arc<PodMetadata>>,
    ) -> (r: Vec<DiscoveredTarget>)
        ensures
            target_views(r@) == targets_at(
                self.config(),
                ip@,
                ports@,
                node_of(*node),
                service_of(*service),
                pod_of(*pod),
            ),
    {
        let mut r: Vec<DiscoveredTarget> = Vec::new();
        let n: usize = ports.len();
        let mut i: usize = 0;
        let ghost all = ports@;
        assert(target_views(r@) =~= Seq::<TargetView>::empty());
        assert(all.take(0) =~= Seq::<EndpointPort>::empty());
        while i < n
            invariant
                n == ports@.len(),
                all == ports@,
                i <= n,
                target_views(r@) == targets_at(
                    self.config(),
                    ip@,
                    all.take(i as int),
                    node_of(*node),
                    service_of(*service),
                    pod_of(*pod),
                ),
            decreases n - i,
        {
            assert(all.take(i + 1).drop_last() =~= all.take(i as int));
            assert(all.take(i + 1).last() == all[i as int]);
            if self.fits(&ports[i]) {
                let number = decimal_i64(ports[i].port as i64);
                let t = DiscoveredTarget {
                    url: write_url(&self.config, ip, number.as_str()),
                    job_name: copy(self.config.job_name.as_str()),
                    node_metadata: share_opt(node),
                    service_metadata: share_opt(service),
                    pod_metadata: share_opt(pod),
                };
                let ghost was = r@;
                let ghost tv = t@;
                r.push(t);
                assert(target_views(r@) =~= target_views(was).push(tv));
            }
            i = i + 1;
        }
        assert(all.take(n as int) =~= all);
        r
    }

    fn fits(&self, p: &EndpointPort) -> (r: bool)
        ensures
            r == port_fits(self.config(), *p),
    {
        match &self.config.port {
            None => true,
            Some(f) => match parse_i32(f.as_str()) {
                Some(n) => p.port == n,
                None => match &p.name {
                    Some(name) => same(name.as_str(), f.as_str()),
                    None => false,
                },
            },
        }
    }

    /// The targets on all nodes.
    pub fn discover_from_nodes(&self, snapshot: &Snapshot) -> (r: Vec<DiscoveredTarget>)
        ensures
            target_views(r@) == targets_of_all_nodes(self.config(), *snapshot, snapshot.nodes@),
    {
        let mut r: Vec<DiscoveredTarget> = Vec::new();
        let n: usize = snapshot.nodes.len();
        let mut i: usize = 0;
        let ghost all = snapshot.nodes@;
        assert(target_views(r@) =~= Seq::<TargetView>::empty());
        assert(all.take(0) =~= Seq::<Node>::empty());
        while i < n
            invariant
                n == snapshot.nodes@.len(),
                all == snapshot.nodes@,
                i <= n,
                target_views(r@) == targets_of_all_nodes(
                    self.config(),
                    *snapshot,
                    all.take(i as int),
                ),
            decreases n - i,
        {
            assert(all.take(i + 1).drop_last() =~= all.take(i as int));
            assert(all.take(i + 1).last() == all[i as int]);
            match self.discover_from_node_internal(snapshot, &snapshot.nodes[i]) {
                Ok(mut found) => {
                    let ghost was = r@;
                    let ghost more = found@;
                    r.append(&mut found);
                    assert(target_views(was + more) =~= target_views(was) + target_views(more));
                },
                Err(_) => {},
            }
            i = i + 1;
        }
        assert(all.take(n as int) =~= all);
        r
    }

    /// The target on one node.
    pub fn discover_from_node_internal(&self, snapshot: &Snapshot, node: &Node) -> (r: Result<
        Vec<DiscoveredTarget>,
        String,
    >)
        ensures
            match (r, targets_of_node(self.config(), *snapshot, *node)) {
                (Ok(v), Ok(t)) => target_views(v@) == t,
                (Err(e), Err(m)) => e@ == m,
                _ => false,
            },
    {
        let mut r: Vec<DiscoveredTarget> = Vec::new();
        assert(target_views(r@) =~= Seq::<TargetView>::empty());
        let name = match &node.metadata.name {
            Some(s) => s.as_str(),
            None => {
                return Ok(r);
            },
        };
        let host = match preferred_ip_of_node(node) {
            Some(ip) => ip,
            None => {
                return Ok(r);
            },
        };
        let configured = match &self.config.port {
            Some(p) => p,
            None => {
                return Ok(r);
            },
        };
        match parse_unsigned(configured.as_str(), 10, 0xffff) {
            Ok(port) => {
                let number = decimal_u64(port as u64);
                let t = DiscoveredTarget {
                    url: write_url(&self.config, host.as_str(), number.as_str()),
                    job_name: copy(self.config.job_name.as_str()),
                    node_metadata: self.find_node(snapshot, name),
                    service_metadata: None,
                    pod_metadata: None,
                };
                let ghost tv = t@;
                r.push(t);
                assert(target_views(r@) =~= seq![tv]);
                Ok(r)
            },
            Err(_) => {
                let mut m = copy("Invalid port: ");
                m.append(configured.as_str());
                Err(m)
            },
        }
    }
}

// ---------------------------------------------------------------------------
// What holds of every target
// ---------------------------------------------------------------------------
/// Every target belongs to the job.
pub open spec fn all_of_job(targets: Seq<TargetView>, job: Seq<char>) -> bool {
    forall|i: int| 0 <= i < targets.len() ==> (#[trigger] targets[i]).job_name == job
}

proof fn lemma_job_at(
    config: KubernetesSdConfig,
    ip: Seq<char>,
    ports: Seq<EndpointPort>,
    node: Option<NodeView>,
    service: Option<ServiceView>,
    pod: Option<PodView>,
)
    ensures
        all_of_job(targets_at(config, ip, ports, node, service, pod), config.job_name@),
    decreases ports.len(),
{
    if ports.len() > 0 {
        lemma_job_at(config, ip, ports.drop_last(), node, service, pod);
    }
}

proof fn lemma_job_of_addresses(
    config: KubernetesSdConfig,
    snapshot: Snapshot,
    namespace: Seq<char>,
    service: Option<ServiceView>,
    addresses: Seq<EndpointAddress>,
    ports: Seq<EndpointPort>,
)
    ensures
        all_of_job(
            targets_of_addresses(config, snapshot, namespace, service, addresses, ports),
            config.job_name@,
        ),
    decreases addresses.len(),
{
    if addresses.len() > 0 {
        let a = addresses.last();
        let pod = pod_behind(snapshot, namespace, a);
        lemma_job_of_addresses(
            config,
            snapshot,
            namespace,
            service,
            addresses.drop_last(),
            ports,
        );
        lemma_job_at(
            config,
            a.ip@,
            ports,
            known_node_of_pod(snapshot, pod),
            service,
            known_pod(pod),
        );
    }
}

proof fn lemma_job_of_subsets(
    config: KubernetesSdConfig,
    snapshot: Snapshot,
    namespace: Seq<char>,
    service: Option<ServiceView>,
    subsets: Seq<EndpointSubset>,
)
    ensures
        all_of_job(
            targets_of_subsets(config, snapshot, namespace, service, subsets),
            config.job_name@,
        ),
    decreases subsets.len(),
{
    if subsets.len() > 0 {
        lemma_job_of_subsets(config, snapshot, namespace, service, subsets.drop_last());
        match (subsets.last().addresses, subsets.last().ports) {
            (Some(a), Some(p)) => {
                lemma_job_of_addresses(config, snapshot, namespace, service, a@, p@);
            },
            _ => {},
        }
    }
}

proof fn lemma_job_of_endpoints(
    config: KubernetesSdConfig,
    snapshot: Snapshot,
    all: Seq<Endpoints>,
)
    ensures
        all_of_job(targets_of_all_endpoints(config, snapshot, all), config.job_name@),
    decreases all.len(),
{
    if all.len() > 0 {
        lemma_job_of_endpoints(config, snapshot, all.drop_last());
        let e = all.last();
        match (e.metadata.name, e.metadata.namespace, e.subsets) {
            (Some(name), Some(ns), Some(subsets)) => {
                lemma_job_of_subsets(
                    config,
                    snapshot,
                    ns@,
                    known_service(snapshot, name@, ns@),
                    subsets@,
                );
            },
            _ => {},
        }
    }
}

proof fn lemma_job_of_nodes(config: KubernetesSdConfig, snapshot: Snapshot, all: Seq<Node>)
    ensures
        all_of_job(targets_of_all_nodes(config, snapshot, all), config.job_name@),
        targets_of_all_nodes(config, snapshot, all).len() <= all.len(),
    decreases all.len(),
{
    if all.len() > 0 {
        lemma_job_of_nodes(config, snapshot, all.drop_last());
    }
}

/// Every target that is found belongs to the configured job.
pub proof fn law_targets_belong_to_the_job(config: KubernetesSdConfig, snapshot: Snapshot)
    ensures
        all_of_job(discovered(config, snapshot), config.job_name@),
{
    match config.role {
        KubernetesRole::Endpoints => {
            lemma_job_of_endpoints(config, snapshot, snapshot.endpoints@);
        },
        KubernetesRole::Node => {
            lemma_job_of_nodes(config, snapshot, snapshot.nodes@);
        },
    }
}

/// The endpoints in scope, in their order.
pub open spec fn scoped(config: KubernetesSdConfig, all: Seq<Endpoints>) -> Seq<Endpoints>
    decreases all.len(),
{
    if all.len() == 0 {
        Seq::empty()
    } else if in_scope(config, all.last()) {
        scoped(config, all.drop_last()).push(all.last())
    } else {
        scoped(config, all.drop_last())
    }
}

/// Endpoints of namespaces that are not looked at make no difference.
pub proof fn law_other_namespaces_make_no_difference(
    config: KubernetesSdConfig,
    snapshot: Snapshot,
    all: Seq<Endpoints>,
)
    ensures
        targets_of_all_endpoints(config, snapshot, all) == targets_of_all_endpoints(
            config,
            snapshot,
            scoped(config, all),
        ),
    decreases all.len(),
{
    if all.len() > 0 {
        let rest = all.drop_last();
        law_other_namespaces_make_no_difference(config, snapshot, rest);
        if in_scope(config, all.last()) {
            let kept = scoped(config, all);
            assert(kept.drop_last() =~= scoped(config, rest));
            assert(kept.last() == all.last());
        }
    }
}

/// On each node there is at most one target.
pub proof fn law_at_most_one_target_on_a_node(
    config: KubernetesSdConfig,
    snapshot: Snapshot,
    n: Node,
)
    ensures
        targets_of_node(config, snapshot, n) matches Ok(t) ==> t.len() <= 1,
        config.role is Node ==> discovered(config, snapshot).len() <= snapshot.nodes@.len(),
{
    lemma_job_of_nodes(config, snapshot, snapshot.nodes@);
}

// ---------------------------------------------------------------------------
// Which targets are found
// ---------------------------------------------------------------------------
/// `t` is the target at port `p` of an address.
pub open spec fn offers(
    config: KubernetesSdConfig,
    ip: Seq<char>,
    ports: Seq<EndpointPort>,
    node: Option<NodeView>,
    service: Option<ServiceView>,
    pod: Option<PodView>,
    p: int,
    t: TargetView,
) -> bool {
    &&& 0 <= p < ports.len()
    &&& port_fits(config, ports[p])
    &&& t == TargetView {
        url: target_url(config, ip, ports[p].port as int),
        job_name: config.job_name@,
        node,
        service,
        pod,
    }
}

/// `t` is the target at port `p` of address `a`.
pub open spec fn serves(
    config: KubernetesSdConfig,
    snapshot: Snapshot,
    namespace: Seq<char>,
    service: Option<ServiceView>,
    addresses: Seq<EndpointAddress>,
    ports: Seq<EndpointPort>,
    a: int,
    p: int,
    t: TargetView,
) -> bool {
    &&& 0 <= a < addresses.len()
    &&& ({
        let pod = pod_behind(snapshot, namespace, addresses[a]);
        offers(
            config,
            addresses[a].ip@,
            ports,
            known_node_of_pod(snapshot, pod),
            service,
            known_pod(pod),
            p,
            t,
        )
    })
}

/// `t` is the target at port `p` of address `a` of subset `s`.
pub open spec fn in_subset(
    config: KubernetesSdConfig,
    snapshot: Snapshot,
    namespace: Seq<char>,
    service: Option<ServiceView>,
    subsets: Seq<EndpointSubset>,
    s: int,
    a: int,
    p: int,
    t: TargetView,
) -> bool {
    &&& 0 <= s < subsets.len()
    &&& match (subsets[s].addresses, subsets[s].ports) {
        (Some(addresses), Some(ports)) => serves(
            config,
            snapshot,
            namespace,
            service,
            addresses@,
            ports@,
            a,
            p,
            t,
        ),
        _ => false,
    }
}

/// `t` is the target at port `p` of address `a` of subset `s` of endpoints `i`, whose
/// namespace is looked at.
pub open spec fn behind(
    config: KubernetesSdConfig,
    snapshot: Snapshot,
    all: Seq<Endpoints>,
    i: int,
    s: int,
    a: int,
    p: int,
    t: TargetView,
) -> bool {
    &&& 0 <= i < all.len()
    &&& in_scope(config, all[i])
    &&& match (all[i].metadata.name, all[i].metadata.namespace, all[i].subsets) {
        (Some(name), Some(ns), Some(subsets)) => in_subset(
            config,
            snapshot,
            ns@,
            known_service(snapshot, name@, ns@),
            subsets@,
            s,
            a,
            p,
            t,
        ),
        _ => false,
    }
}

proof fn lemma_contains_both<T>(a: Seq<T>, b: Seq<T>, t: T)
    ensures
        (a + b).contains(t) <==> a.contains(t) || b.contains(t),
{
    if a.contains(t) {
        let i = choose|i: int| 0 <= i < a.len() && a[i] == t;
        assert((a + b)[i] == t);
    }
    if b.contains(t) {
        let i = choose|i: int| 0 <= i < b.len() && b[i] == t;
        assert((a + b)[a.len() + i] == t);
    }
}

proof fn lemma_targets_at(
    config: KubernetesSdConfig,
    ip: Seq<char>,
    ports: Seq<EndpointPort>,
    node: Option<NodeView>,
    service: Option<ServiceView>,
    pod: Option<PodView>,
    t: TargetView,
)
    ensures
        targets_at(config, ip, ports, node, service, pod).contains(t) <==> exists|p: int|
            offers(config, ip, ports, node, service, pod, p, t),
    decreases ports.len(),
{
    let all = targets_at(config, ip, ports, node, service, pod);
    if ports.len() > 0 {
        let rest = ports.drop_last();
        let before = targets_at(config, ip, rest, node, service, pod);
        lemma_targets_at(config, ip, rest, node, service, pod, t);
        let n = ports.len() - 1;
        if before.contains(t) {
            let p = choose|p: int| offers(config, ip, rest, node, service, pod, p, t);
            assert(offers(config, ip, ports, node, service, pod, p, t));
        }
        if port_fits(config, ports.last()) {
            lemma_contains_both(before, seq![all.last()], t);
            assert(before + seq![all.last()] =~= all);
            assert(seq![all.last()].contains(t) <==> t == all.last()) by {
                assert(seq![all.last()][0] == all.last());
            }
            if t == all.last() {
                assert(offers(config, ip, ports, node, service, pod, n, t));
            }
        }
        if exists|p: int| offers(config, ip, ports, node, service, pod, p, t) {
            let p = choose|p: int| offers(config, ip, ports, node, service, pod, p, t);
            if p < n {
                assert(offers(config, ip, rest, node, service, pod, p, t));
            }
        }
    }
}

proof fn lemma_targets_of_addresses(
    config: KubernetesSdConfig,
    snapshot: Snapshot,
    namespace: Seq<char>,
    service: Option<ServiceView>,
    addresses: Seq<EndpointAddress>,
    ports: Seq<EndpointPort>,
    t: TargetView,
)
    ensures
        targets_of_addresses(config, snapshot, namespace, service, addresses, ports).contains(t)
            <==> exists|a: int, p: int|
            serves(config, snapshot, namespace, service, addresses, ports, a, p, t),
    decreases addresses.len(),
{
    if addresses.len() > 0 {
        let rest = addresses.drop_last();
        let n = addresses.len() - 1;
        let last = addresses.last();
        let pod = pod_behind(snapshot, namespace, last);
        let node = known_node_of_pod(snapshot, pod);
        let before = targets_of_addresses(config, snapshot, namespace, service, rest, ports);
        let here = targets_at(config, last.ip@, ports, node, service, known_pod(pod));
        lemma_targets_of_addresses(config, snapshot, namespace, service, rest, ports, t);
        lemma_targets_at(config, last.ip@, ports, node, service, known_pod(pod), t);
        lemma_contains_both(before, here, t);
        if before.contains(t) {
            let (a, p) = choose|a: int, p: int|
                serves(config, snapshot, namespace, service, rest, ports, a, p, t);
            assert(serves(config, snapshot, namespace, service, addresses, ports, a, p, t));
        }
        if here.contains(t) {
            let p = choose|p: int|
                offers(config, last.ip@, ports, node, service, known_pod(pod), p, t);
            assert(serves(config, snapshot, namespace, service, addresses, ports, n, p, t));
        }
        if exists|a: int, p: int|
            serves(config, snapshot, namespace, service, addresses, ports, a, p, t) {
            let (a, p) = choose|a: int, p: int|
                serves(config, snapshot, namespace, service, addresses, ports, a, p, t);
            if a < n {
                assert(serves(config, snapshot, namespace, service, rest, ports, a, p, t));
            } else {
                assert(offers(config, last.ip@, ports, node, service, known_pod(pod), p, t));
            }
        }
    }
}

proof fn lemma_targets_of_subsets(
    config: KubernetesSdConfig,
    snapshot: Snapshot,
    namespace: Seq<char>,
    service: Option<ServiceView>,
    subsets: Seq<EndpointSubset>,
    t: TargetView,
)
    ensures
        targets_of_subsets(config, snapshot, namespace, service, subsets).contains(t) <==> exists|
            s: int,
            a: int,
            p: int,
        |
            in_subset(config, snapshot, namespace, service, subsets, s, a, p, t),
    decreases subsets.len(),
{
    if subsets.len() > 0 {
        let rest = subsets.drop_last();
        let n = subsets.len() - 1;
        let last = subsets.last();
        let before = targets_of_subsets(config, snapshot, namespace, service, rest);
        lemma_targets_of_subsets(config, snapshot, namespace, service, rest, t);
        if before.contains(t) {
            let (s, a, p) = choose|s: int, a: int, p: int|
                in_subset(config, snapshot, namespace, service, rest, s, a, p, t);
            assert(in_subset(config, snapshot, namespace, service, subsets, s, a, p, t));
        }
        match (last.addresses, last.ports) {
            (Some(addresses), Some(ports)) => {
                let here = targets_of_addresses(
                    config,
                    snapshot,
                    namespace,
                    service,
                    addresses@,
                    ports@,
                );
                lemma_targets_of_addresses(
                    config,
                    snapshot,
                    namespace,
                    service,
                    addresses@,
                    ports@,
                    t,
                );
                lemma_contains_both(before, here, t);
                if here.contains(t) {
                    let (a, p) = choose|a: int, p: int|
                        serves(
                            config,
                            snapshot,
                            namespace,
                            service,
                            addresses@,
                            ports@,
                            a,
                            p,
                            t,
                        );
                    assert(in_subset(config, snapshot, namespace, service, subsets, n, a, p, t));
                }
            },
            _ => {},
        }
        if exists|s: int, a: int, p: int|
            in_subset(config, snapshot, namespace, service, subsets, s, a, p, t) {
            let (s, a, p) = choose|s: int, a: int, p: int|
                in_subset(config, snapshot, namespace, service, subsets, s, a, p, t);
            if s < n {
                assert(in_subset(config, snapshot, namespace, service, rest, s, a, p, t));
            }
        }
    }
}

proof fn lemma_targets_of_all_endpoints(
    config: KubernetesSdConfig,
    snapshot: Snapshot,
    all: Seq<Endpoints>,
    t: TargetView,
)
    ensures
        targets_of_all_endpoints(config, snapshot, all).contains(t) <==> exists|
            i: int,
            s: int,
            a: int,
            p: int,
        |
            behind(config, snapshot, all, i, s, a, p, t),
    decreases all.len(),
{
    if all.len() > 0 {
        let rest = all.drop_last();
        let n = all.len() - 1;
        let last = all.last();
        let before = targets_of_all_endpoints(config, snapshot, rest);
        lemma_targets_of_all_endpoints(config, snapshot, rest, t);
        if before.contains(t) {
            let (i, s, a, p) = choose|i: int, s: int, a: int, p: int|
                behind(config, snapshot, rest, i, s, a, p, t);
            assert(behind(config, snapshot, all, i, s, a, p, t));
        }
        if in_scope(config, last) {
            let here = targets_of_endpoints(config, snapshot, last);
            lemma_contains_both(before, here, t);
            match (last.metadata.name, last.metadata.namespace, last.subsets) {
                (Some(name), Some(ns), Some(subsets)) => {
                    let service = known_service(snapshot, name@, ns@);
                    lemma_targets_of_subsets(config, snapshot, ns@, service, subsets@, t);
                    if here.contains(t) {
                        let (s, a, p) = choose|s: int, a: int, p: int|
                            in_subset(config, snapshot, ns@, service, subsets@, s, a, p, t);
                        assert(behind(config, snapshot, all, n, s, a, p, t));
                    }
                },
                _ => {},
            }
        }
        if exists|i: int, s: int, a: int, p: int| behind(config, snapshot, all, i, s, a, p, t) {
            let (i, s, a, p) = choose|i: int, s: int, a: int, p: int|
                behind(config, snapshot, all, i, s, a, p, t);
            if i < n {
                assert(behind(config, snapshot, rest, i, s, a, p, t));
            }
        }
    }
}

/// The targets behind services are exactly the ports that fit, of all addresses of
/// all endpoints whose namespace is looked at.
pub proof fn law_every_fitting_port_is_a_target(
    config: KubernetesSdConfig,
    snapshot: Snapshot,
    t: TargetView,
)
    requires
        config.role is Endpoints,
    ensures
        discovered(config, snapshot).contains(t) <==> exists|i: int, s: int, a: int, p: int|
            behind(config, snapshot, snapshot.endpoints@, i, s, a, p, t),
{
    lemma_targets_of_all_endpoints(config, snapshot, snapshot.endpoints@, t);
}

// ---------------------------------------------------------------------------
// What a target is found from
// ---------------------------------------------------------------------------
/// The namespace is one of those configured, or none is configured.
pub open spec fn looked_at(config: KubernetesSdConfig, ns: Seq<char>) -> bool {
    config.namespaces@.len() == 0 || exists|k: int|
        0 <= k < config.namespaces@.len() && (#[trigger] config.namespaces@[k])@ == ns
}

/// The port has the configured number, where the configuration is a number, and else
/// the configured name; without a configuration every port does.
pub open spec fn port_wanted(config: KubernetesSdConfig, p: EndpointPort) -> bool {
    match config.port {
        None => true,
        Some(f) => match i32_value(f@) {
            Some(n) => p.port as int == n,
            None => p.name matches Some(w) && w@ == f@,
        },
    }
}

/// The address refers to the pod of that name.
pub open spec fn refers_to_pod(a: EndpointAddress, name: Seq<char>) -> bool {
    a.target_ref matches Some(r) && (r.kind matches Some(k) && k@ == "Pod"@) && (r.name matches Some(
        n,
    ) && n@ == name)
}

/// The node is the one that is kept under that name, with its labels and its internal
/// address, or none where none is kept.
pub open spec fn is_kept_node(
    snapshot: Snapshot,
    name: Seq<char>,
    node: Option<NodeView>,
) -> bool {
    match stored(snapshot.nodes@, name, None) {
        Some(n) => node matches Some(v) && {
            &&& v.name == name
            &&& v.labels == super::objects::rows_or_empty(n.metadata.labels)
            &&& v.node_ip == internal_ip(node_addresses(n))
        },
        None => node is None,
    }
}

/// The target is the one at that port of that address of the endpoints of that name:
/// its address, its job, its service, its pod and its node.
pub open spec fn target_fits(
    config: KubernetesSdConfig,
    snapshot: Snapshot,
    name: Seq<char>,
    ns: Seq<char>,
    a: EndpointAddress,
    p: EndpointPort,
    t: TargetView,
) -> bool {
    &&& t.url == config.scheme@ + "://"@ + a.ip@ + ":"@ + decimal(p.port as int)
        + config.metrics_path@
    &&& t.job_name == config.job_name@
    &&& match stored(snapshot.services@, name, Some(ns)) {
        Some(s) => t.service == Some(service_view(s)),
        None => t.service is None,
    }
    &&& (forall|n: Seq<char>| !(#[trigger] refers_to_pod(a, n))) ==> t.pod is None && t.node is None
    &&& forall|n: Seq<char>| #[trigger]
        refers_to_pod(a, n) ==> match stored(snapshot.pods@, n, Some(ns)) {
            Some(pod) => {
                &&& t.pod == Some(pod_view(pod))
                &&& match pod_node(pod) {
                    Some(node) => is_kept_node(snapshot, node, t.node),
                    None => t.node is None,
                }
            },
            None => t.pod is None && t.node is None,
        }
}

/// Port `p` of address `a` of subset `s` of endpoints `i` is one to scrape, and `t` is
/// its target.
pub open spec fn to_scrape(
    config: KubernetesSdConfig,
    snapshot: Snapshot,
    i: int,
    s: int,
    a: int,
    p: int,
    t: TargetView,
) -> bool {
    let all = snapshot.endpoints@;
    &&& 0 <= i < all.len()
    &&& match (all[i].metadata.name, all[i].metadata.namespace, all[i].subsets) {
        (Some(name), Some(ns), Some(subsets)) => {
            &&& looked_at(config, ns@)
            &&& 0 <= s < subsets@.len()
            &&& match (subsets@[s].addresses, subsets@[s].ports) {
                (Some(addresses), Some(ports)) => {
                    &&& 0 <= a < addresses@.len()
                    &&& 0 <= p < ports@.len()
                    &&& port_wanted(config, ports@[p])
                    &&& target_fits(config, snapshot, name@, ns@, addresses@[a], ports@[p], t)
                },
                _ => false,
            }
        },
        _ => false,
    }
}

proof fn lemma_scope(config: KubernetesSdConfig, e: Endpoints)
    requires
        e.metadata.namespace is Some,
    ensures
        in_scope(config, e) <==> looked_at(config, e.metadata.namespace->0@),
{
    let t = texts(config.namespaces@);
    let ns = e.metadata.namespace->0@;
    if t.contains(ns) {
        let k = choose|k: int| 0 <= k < t.len() && t[k] == ns;
        assert(config.namespaces@[k]@ == ns);
    }
    if exists|k: int|
        0 <= k < config.namespaces@.len() && (#[trigger] config.namespaces@[k])@ == ns {
        let k = choose|k: int|
            0 <= k < config.namespaces@.len() && (#[trigger] config.namespaces@[k])@ == ns;
        assert(t[k] == ns);
    }
}

proof fn lemma_target_fits(
    config: KubernetesSdConfig,
    snapshot: Snapshot,
    name: Seq<char>,
    ns: Seq<char>,
    a: EndpointAddress,
    p: EndpointPort,
    t: TargetView,
)
    ensures
        ({
            let pod = pod_behind(snapshot, ns, a);
            t == TargetView {
                url: target_url(config, a.ip@, p.port as int),
                job_name: config.job_name@,
                node: known_node_of_pod(snapshot, pod),
                service: known_service(snapshot, name, ns),
                pod: known_pod(pod),
            }
        }) <==> target_fits(config, snapshot, name, ns, a, p, t),
{
    let pod = pod_behind(snapshot, ns, a);
    let w = TargetView {
        url: target_url(config, a.ip@, p.port as int),
        job_name: config.job_name@,
        node: known_node_of_pod(snapshot, pod),
        service: known_service(snapshot, name, ns),
        pod: known_pod(pod),
    };
    let refers = exists|n: Seq<char>| #[trigger] refers_to_pod(a, n);
    if refers {
        let n = choose|n: Seq<char>| #[trigger] refers_to_pod(a, n);
        assert(forall|m: Seq<char>| #[trigger] refers_to_pod(a, m) ==> m == n);
        assert(pod == stored(snapshot.pods@, n, Some(ns)));
        assert(target_fits(config, snapshot, name, ns, a, p, w));
        if target_fits(config, snapshot, name, ns, a, p, t) {
            assert(refers_to_pod(a, n));
            match pod {
                Some(x) => {
                    match pod_node(x) {
                        Some(node) => {
                            assert(is_kept_node(snapshot, node, t.node));
                            match stored(snapshot.nodes@, node, None) {
                                Some(k) => {
                                    assert(t.node->0 =~= node_view(
                                        node,
                                        k,
                                        internal_ip(node_addresses(k)),
                                    ));
                                },
                                None => {},
                            }
                        },
                        None => {},
                    }
                },
                None => {},
            }
            assert(t =~= w);
        }
    } else {
        assert(pod is None) by {
            match a.target_ref {
                Some(r) => {
                    match r.name {
                        Some(n) => {
                            assert(!refers_to_pod(a, n@));
                        },
                        None => {},
                    }
                },
                None => {},
            }
        }
        if target_fits(config, snapshot, name, ns, a, p, t) {
            assert(t =~= w);
        }
    }
}

proof fn lemma_to_scrape(
    config: KubernetesSdConfig,
    snapshot: Snapshot,
    i: int,
    s: int,
    a: int,
    p: int,
    t: TargetView,
)
    ensures
        behind(config, snapshot, snapshot.endpoints@, i, s, a, p, t) <==> to_scrape(
            config,
            snapshot,
            i,
            s,
            a,
            p,
            t,
        ),
{
    let all = snapshot.endpoints@;
    if 0 <= i < all.len() && all[i].metadata.namespace is Some {
        lemma_scope(config, all[i]);
        match (all[i].metadata.name, all[i].metadata.namespace, all[i].subsets) {
            (Some(name), Some(ns), Some(subsets)) => {
                if 0 <= s < subsets@.len() {
                    match (subsets@[s].addresses, subsets@[s].ports) {
                        (Some(addresses), Some(ports)) => {
                            if 0 <= a < addresses@.len() && 0 <= p < ports@.len() {
                                lemma_target_fits(
                                    config,
                                    snapshot,
                                    name@,
                                    ns@,
                                    addresses@[a],
                                    ports@[p],
                                    t,
                                );
                                assert(port_fits(config, ports@[p]) <==> port_wanted(
                                    config,
                                    ports@[p],
                                ));
                            }
                        },
                        _ => {},
                    }
                }
            },
            _ => {},
        }
    }
}

/// The targets behind services are exactly the ports to scrape: of all endpoints whose
/// namespace is any of those configured, all addresses of all subsets, and all ports
/// that are wanted.
pub proof fn law_targets_are_the_ports_to_scrape(
    config: KubernetesSdConfig,
    snapshot: Snapshot,
    t: TargetView,
)
    requires
        config.role is Endpoints,
    ensures
        discovered(config, snapshot).contains(t) <==> exists|i: int, s: int, a: int, p: int|
            to_scrape(config, snapshot, i, s, a, p, t),
{
    let all = snapshot.endpoints@;
    law_every_fitting_port_is_a_target(config, snapshot, t);
    if exists|i: int, s: int, a: int, p: int| behind(config, snapshot, all, i, s, a, p, t) {
        let (i, s, a, p) = choose|i: int, s: int, a: int, p: int|
            behind(config, snapshot, all, i, s, a, p, t);
        lemma_to_scrape(config, snapshot, i, s, a, p, t);
    }
    if exists|i: int, s: int, a: int, p: int| to_scrape(config, snapshot, i, s, a, p, t) {
        let (i, s, a, p) = choose|i: int, s: int, a: int, p: int|
            to_scrape(config, snapshot, i, s, a, p, t);
        lemma_to_scrape(config, snapshot, i, s, a, p, t);
    }
}

/// In whichever of the configured namespaces endpoints live, each of their ports that
/// is wanted has its target.
pub proof fn law_every_configured_namespace_is_looked_at(
    config: KubernetesSdConfig,
    snapshot: Snapshot,
    k: int,
    i: int,
    s: int,
    a: int,
    p: int,
)
    requires
        config.role is Endpoints,
        0 <= k < config.namespaces@.len(),
        0 <= i < snapshot.endpoints@.len(),
        snapshot.endpoints@[i].metadata.name is Some,
        snapshot.endpoints@[i].metadata.namespace is Some,
        snapshot.endpoints@[i].metadata.namespace->0@ == config.namespaces@[k]@,
        snapshot.endpoints@[i].subsets is Some,
        0 <= s < snapshot.endpoints@[i].subsets->0@.len(),
        snapshot.endpoints@[i].subsets->0@[s].addresses is Some,
        snapshot.endpoints@[i].subsets->0@[s].ports is Some,
        0 <= a < snapshot.endpoints@[i].subsets->0@[s].addresses->0@.len(),
        0 <= p < snapshot.endpoints@[i].subsets->0@[s].ports->0@.len(),
        port_wanted(config, snapshot.endpoints@[i].subsets->0@[s].ports->0@[p]),
    ensures
        exists|t: TargetView| #[trigger]
            discovered(config, snapshot).contains(t) && to_scrape(
                config,
                snapshot,
                i,
                s,
                a,
                p,
                t,
            ),
{
    let e = snapshot.endpoints@[i];
    let name = e.metadata.name->0@;
    let ns = e.metadata.namespace->0@;
    let address = e.subsets->0@[s].addresses->0@[a];
    let port = e.subsets->0@[s].ports->0@[p];
    let pod = pod_behind(snapshot, ns, address);
    let t = TargetView {
        url: target_url(config, address.ip@, port.port as int),
        job_name: config.job_name@,
        node: known_node_of_pod(snapshot, pod),
        service: known_service(snapshot, name, ns),
        pod: known_pod(pod),
    };
    lemma_target_fits(config, snapshot, name, ns, address, port, t);
    assert(config.namespaces@[k]@ == ns);
    assert(to_scrape(config, snapshot, i, s, a, p, t));
    law_targets_are_the_ports_to_scrape(config, snapshot, t);
}

/// Where namespaces are configured, endpoints of any other namespace have no target,
/// and where none is configured every namespace is looked at.
pub proof fn law_namespaces_limit_the_targets(config: KubernetesSdConfig, e: Endpoints)
    requires
        e.metadata.namespace is Some,
    ensures
        config.namespaces@.len() == 0 ==> in_scope(config, e),
        (forall|k: int|
            0 <= k < config.namespaces@.len() ==> (#[trigger] config.namespaces@[k])@
                != e.metadata.namespace->0@) && config.namespaces@.len() > 0 ==> !in_scope(
            config,
            e,
        ),
{
    lemma_scope(config, e);
}

/// At one address the targets are those of the wanted ports, one for each and in the
/// order of the ports.
pub proof fn law_wanted_ports_are_targets_in_order(
    config: KubernetesSdConfig,
    ip: Seq<char>,
    ports: Seq<EndpointPort>,
    node: Option<NodeView>,
    service: Option<ServiceView>,
    pod: Option<PodView>,
)
    ensures
        targets_at(config, ip, ports, node, service, pod) == ports.filter(
            |p: EndpointPort| port_wanted(config, p),
        ).map_values(
            |p: EndpointPort|
                TargetView {
                    url: config.scheme@ + "://"@ + ip + ":"@ + decimal(p.port as int)
                        + config.metrics_path@,
                    job_name: config.job_name@,
                    node,
                    service,
                    pod,
                },
        ),
    decreases ports.len(),
{
    reveal(Seq::filter);
    let w = |p: EndpointPort| port_wanted(config, p);
    let f = |p: EndpointPort|
        TargetView {
            url: config.scheme@ + "://"@ + ip + ":"@ + decimal(p.port as int)
                + config.metrics_path@,
            job_name: config.job_name@,
            node,
            service,
            pod,
        };
    let all = targets_at(config, ip, ports, node, service, pod);
    if ports.len() > 0 {
        let rest = ports.drop_last();
        law_wanted_ports_are_targets_in_order(config, ip, rest, node, service, pod);
        assert(port_fits(config, ports.last()) <==> port_wanted(config, ports.last()));
        assert(rest.filter(w).push(ports.last()).map_values(f) =~= rest.filter(w).map_values(
            f,
        ).push(f(ports.last())));
    }
    assert(all =~= ports.filter(w).map_values(f));
}

/// The targets of several endpoints are those of each, in their order, and so are those
/// of several subsets and of several addresses.
pub proof fn law_targets_come_in_order(
    config: KubernetesSdConfig,
    snapshot: Snapshot,
    a: Seq<Endpoints>,
    b: Seq<Endpoints>,
    ns: Seq<char>,
    service: Option<ServiceView>,
    s1: Seq<EndpointSubset>,
    s2: Seq<EndpointSubset>,
    x: Seq<EndpointAddress>,
    y: Seq<EndpointAddress>,
    ports: Seq<EndpointPort>,
)
    ensures
        targets_of_all_endpoints(config, snapshot, a + b) == targets_of_all_endpoints(
            config,
            snapshot,
            a,
        ) + targets_of_all_endpoints(config, snapshot, b),
        targets_of_subsets(config, snapshot, ns, service, s1 + s2) == targets_of_subsets(
            config,
            snapshot,
            ns,
            service,
            s1,
        ) + targets_of_subsets(config, snapshot, ns, service, s2),
        targets_of_addresses(config, snapshot, ns, service, x + y, ports) == targets_of_addresses(
            config,
            snapshot,
            ns,
            service,
            x,
            ports,
        ) + targets_of_addresses(config, snapshot, ns, service, y, ports),
{
    lemma_endpoints_in_order(config, snapshot, a, b);
    lemma_subsets_in_order(config, snapshot, ns, service, s1, s2);
    lemma_addresses_in_order(config, snapshot, ns, service, x, y, ports);
}

proof fn lemma_endpoints_in_order(
    config: KubernetesSdConfig,
    snapshot: Snapshot,
    a: Seq<Endpoints>,
    b: Seq<Endpoints>,
)
    ensures
        targets_of_all_endpoints(config, snapshot, a + b) == targets_of_all_endpoints(
            config,
            snapshot,
            a,
        ) + targets_of_all_endpoints(config, snapshot, b),
    decreases b.len(),
{
    let ta = targets_of_all_endpoints(config, snapshot, a);
    if b.len() == 0 {
        assert(a + b =~= a);
        assert(ta + targets_of_all_endpoints(config, snapshot, b) =~= ta);
    } else {
        let rest = b.drop_last();
        lemma_endpoints_in_order(config, snapshot, a, rest);
        assert((a + b).drop_last() =~= a + rest);
        assert((a + b).last() == b.last());
        let tb = targets_of_all_endpoints(config, snapshot, rest);
        let here = targets_of_endpoints(config, snapshot, b.last());
        assert((ta + tb) + here =~= ta + (tb + here));
    }
}

proof fn lemma_subsets_in_order(
    config: KubernetesSdConfig,
    snapshot: Snapshot,
    ns: Seq<char>,
    service: Option<ServiceView>,
    a: Seq<EndpointSubset>,
    b: Seq<EndpointSubset>,
)
    ensures
        targets_of_subsets(config, snapshot, ns, service, a + b) == targets_of_subsets(
            config,
            snapshot,
            ns,
            service,
            a,
        ) + targets_of_subsets(config, snapshot, ns, service, b),
    decreases b.len(),
{
    let ta = targets_of_subsets(config, snapshot, ns, service, a);
    if b.len() == 0 {
        assert(a + b =~= a);
        assert(ta + targets_of_subsets(config, snapshot, ns, service, b) =~= ta);
    } else {
        let rest = b.drop_last();
        lemma_subsets_in_order(config, snapshot, ns, service, a, rest);
        assert((a + b).drop_last() =~= a + rest);
        assert((a + b).last() == b.last());
        let tb = targets_of_subsets(config, snapshot, ns, service, rest);
        match (b.last().addresses, b.last().ports) {
            (Some(x), Some(p)) => {
                let here = targets_of_addresses(config, snapshot, ns, service, x@, p@);
                assert((ta + tb) + here =~= ta + (tb + here));
            },
            _ => {},
        }
    }
}

proof fn lemma_addresses_in_order(
    config: KubernetesSdConfig,
    snapshot: Snapshot,
    ns: Seq<char>,
    service: Option<ServiceView>,
    a: Seq<EndpointAddress>,
    b: Seq<EndpointAddress>,
    ports: Seq<EndpointPort>,
)
    ensures
        targets_of_addresses(config, snapshot, ns, service, a + b, ports) == targets_of_addresses(
            config,
            snapshot,
            ns,
            service,
            a,
            ports,
        ) + targets_of_addresses(config, snapshot, ns, service, b, ports),
    decreases b.len(),
{
    let ta = targets_of_addresses(config, snapshot, ns, service, a, ports);
    if b.len() == 0 {
        assert(a + b =~= a);
        assert(ta + targets_of_addresses(config, snapshot, ns, service, b, ports) =~= ta);
    } else {
        let rest = b.drop_last();
        lemma_addresses_in_order(config, snapshot, ns, service, a, rest, ports);
        assert((a + b).drop_last() =~= a + rest);
        assert((a + b).last() == b.last());
        let tb = targets_of_addresses(config, snapshot, ns, service, rest, ports);
        let x = b.last();
        let pod = pod_behind(snapshot, ns, x);
        let here = targets_at(
            config,
            x.ip@,
            ports,
            known_node_of_pod(snapshot, pod),
            service,
            known_pod(pod),
        );
        assert((ta + tb) + here =~= ta + (tb + here));
    }
}

/// The target is the one on that node: at the node's preferred address and the
/// configured port, with what is kept of the node, and without a pod or a service.
pub open spec fn on_node(
    config: KubernetesSdConfig,
    snapshot: Snapshot,
    name: Seq<char>,
    ip: Seq<char>,
    port: int,
    t: TargetView,
) -> bool {
    &&& t.url == config.scheme@ + "://"@ + ip + ":"@ + decimal(port) + config.metrics_path@
    &&& t.job_name == config.job_name@
    &&& is_kept_node(snapshot, name, t.node)
    &&& t.service is None
    &&& t.pod is None
}

/// On a node with a name and an address there is one target, at the configured port;
/// without a name, an address or a configured port there is none, and a configured
/// port that is no port number is an error that names it.
pub proof fn law_node_has_its_target(
    config: KubernetesSdConfig,
    snapshot: Snapshot,
    n: Node,
    name: Seq<char>,
    ip: Seq<char>,
    f: Seq<char>,
)
    ensures
        ({
            let r = targets_of_node(config, snapshot, n);
            let named = n.metadata.name matches Some(s) && s@ == name;
            let placed = preferred_ip(node_addresses(n)) == Some(ip);
            let given = config.port matches Some(p) && p@ == f;
            &&& named && placed && given ==> match unsigned_value(f, 10, 0xffff) {
                Ok(port) => r matches Ok(t) && t.len() == 1 && on_node(
                    config,
                    snapshot,
                    name,
                    ip,
                    port as int,
                    t[0],
                ),
                Err(_) => r == Err::<Seq<TargetView>, Seq<char>>("Invalid port: "@ + f),
            }
            &&& n.metadata.name is None || config.port is None || preferred_ip(
                node_addresses(n),
            ) is None ==> (r matches Ok(t) && t.len() == 0)
        }),
{
}

/// The targets on several nodes are those of each, in their order; a node whose target
/// cannot be told takes nothing from the others.
pub proof fn law_nodes_are_told_one_by_one(
    config: KubernetesSdConfig,
    snapshot: Snapshot,
    before: Seq<Node>,
    n: Node,
)
    ensures
        targets_of_all_nodes(config, snapshot, Seq::empty()).len() == 0,
        targets_of_node(config, snapshot, n) matches Ok(t) ==> targets_of_all_nodes(
            config,
            snapshot,
            before.push(n),
        ) == targets_of_all_nodes(config, snapshot, before) + t,
        targets_of_node(config, snapshot, n) is Err ==> targets_of_all_nodes(
            config,
            snapshot,
            before.push(n),
        ) == targets_of_all_nodes(config, snapshot, before),
        config.role is Node ==> discovered(config, snapshot) == targets_of_all_nodes(
            config,
            snapshot,
            snapshot.nodes@,
        ),
{
    assert(before.push(n).drop_last() =~= before);
    assert(before.push(n).last() == n);
}

/// The configured selectors hold for the objects that targets are made of, which are the
/// nodes where those are discovered and else the endpoints; of the objects that only
/// tell more of a target, all are watched.
pub proof fn law_selectors_hold_for_what_is_discovered(p: WatchPlan, config: KubernetesSdConfig)
    requires
        watches(p, config),
    ensures
        opt_text(p.endpoints.field_selector) == opt_text(config.field_selector),
        opt_text(p.endpoints.label_selector) == opt_text(config.label_selector),
        config.role is Node ==> opt_text(p.nodes.field_selector) == opt_text(config.field_selector)
            && opt_text(p.nodes.label_selector) == opt_text(config.label_selector),
        config.role !is Node ==> p.nodes.field_selector is None && p.nodes.label_selector is None,
        p.pods.field_selector is None && p.pods.label_selector is None,
        p.services.field_selector is None && p.services.label_selector is None,
        p.endpoints.delete_delay_secs == 30,
        p.nodes.delete_delay_secs == 60 && p.pods.delete_delay_secs == 60,
        p.services.delete_delay_secs == 60 && p.poll_secs == 5,
{
}

/// A target is read field by field.
pub proof fn law_target_fields_are_read(t: DiscoveredTarget)
    ensures
        t@.url == t.url@ && t@.job_name == t.job_name@,
        t.node_metadata is None ==> t@.node is None,
        t.node_metadata matches Some(n) ==> t@.node == Some((*n)@),
        t.service_metadata is None ==> t@.service is None,
        t.service_metadata matches Some(s) ==> t@.service == Some((*s)@),
        t.pod_metadata is None ==> t@.pod is None,
        t.pod_metadata matches Some(p) ==> t@.pod == Some((*p)@),
{
}

/// A limit holds where it is at least 1, or where there is none.
pub proof fn law_only_limits_of_zero_are_wrong(config: KubernetesSdConfig)
    ensures
        config.limits_valid() <==> config.send_queue_capacity != Some(0usize)
            && config.send_worker_count != Some(0usize) && config.scrape_concurrency != Some(0usize)
            && config.send_timeout_secs != 0,
{
}

/// A selector takes all where it is `*`, and else the keys that it lists.
pub proof fn law_selector_takes_listed_keys(s: String, keys: Vec<String>, key: Seq<char>)
    ensures
        LabelSelector::All(s).selects_all() <==> s@ == "*"@,
        !LabelSelector::Specific(keys).selects_all(),
        LabelSelector::Specific(keys).selects_none() <==> keys@.len() == 0,
        LabelSelector::Specific(keys).selects(key) <==> exists|i: int|
            0 <= i < keys@.len() && (#[trigger] keys@[i])@ == key,
        LabelSelector::All(s).selects(key) <==> s@ == "*"@,
{
    let v = texts(keys@);
    if v.contains(key) {
        let i = choose|i: int| 0 <= i < v.len() && v[i] == key;
        assert(keys@[i]@ == key);
    }
    if exists|i: int| 0 <= i < keys@.len() && (#[trigger] keys@[i])@ == key {
        let i = choose|i: int| 0 <= i < keys@.len() && (#[trigger] keys@[i])@ == key;
        assert(v[i] == key);
    }
}

} // verus!

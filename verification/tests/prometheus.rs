use std::sync::Arc;

use telemetry_collectors::metric::{Metric, MetricKind, MetricValue};
use telemetry_collectors::prometheus::cache_manager::{
    NamespaceWatchGuard, NamespaceWatchManager, NodeWatchGuard, WatchAction, WatchEvent,
};
use telemetry_collectors::prometheus::k8s_discovery::{
    default_metrics_path, default_scheme, DiscoveredTarget, K8sServiceDiscovery,
    KubernetesRole, KubernetesSdConfig, LabelSelector, MetadataLabelsConfig, NodeMetadata,
    PodMetadata, ServiceMetadata, Snapshot,
};
use telemetry_collectors::prometheus::k8s_scraper::{
    build_up_event, next_worker_action, send_report, BatchQueue, K8sScraper, PopStep, Scrape,
    ScrapeAction, ScrapeEvent, ScrapeOptions, ScrapeStart, ScrapedBatch, SendOutcome, SendReport,
    WorkerAction, WorkerEvent,
};
use telemetry_collectors::prometheus::metadata_cache::{get_node_name_from_pod, MetadataCache};
use telemetry_collectors::prometheus::metrics_enrichment::{
    add_metadata_to_metric, sanitize_label_name,
};
use telemetry_collectors::prometheus::objects::{
    EndpointAddress, EndpointPort, EndpointSubset, Endpoints, Node, NodeAddress, NodeStatus,
    ObjectMeta, ObjectReference, Pod, PodSpec, PodStatus, Service,
};
use telemetry_collectors::prometheus::uri::UriParts;
use telemetry_collectors::table::TextMap;

fn map(pairs: &[(&str, &str)]) -> TextMap<String> {
    let mut m = TextMap::new();
    for (k, v) in pairs {
        m.insert(k.to_string(), v.to_string());
    }
    m
}

fn meta(name: &str, namespace: Option<&str>) -> ObjectMeta {
    ObjectMeta {
        name: Some(name.to_string()),
        namespace: namespace.map(|s| s.to_string()),
        labels: Some(map(&[("app", name)])),
        annotations: None,
    }
}

fn pod(name: &str, namespace: &str, ip: Option<&str>, node: Option<&str>) -> Pod {
    Pod {
        metadata: meta(name, Some(namespace)),
        spec: Some(PodSpec { node_name: node.map(|s| s.to_string()) }),
        status: Some(PodStatus { pod_ip: ip.map(|s| s.to_string()) }),
    }
}

fn node(name: &str, addresses: &[(&str, &str)]) -> Node {
    Node {
        metadata: meta(name, None),
        status: Some(NodeStatus {
            addresses: Some(
                addresses
                    .iter()
                    .map(|(t, a)| NodeAddress { type_: t.to_string(), address: a.to_string() })
                    .collect(),
            ),
        }),
    }
}

fn config(role: KubernetesRole) -> KubernetesSdConfig {
    KubernetesSdConfig {
        role,
        namespaces: vec![],
        label_selector: Some("app=x".to_string()),
        field_selector: None,
        metadata_labels: MetadataLabelsConfig::default(),
        job_name: "job".to_string(),
        scheme: default_scheme(),
        port: None,
        metrics_path: default_metrics_path(),
        send_queue_capacity: None,
        send_worker_count: None,
        scrape_concurrency: None,
        send_timeout_secs: 5,
    }
}

fn endpoints(name: &str, namespace: &str) -> Endpoints {
    let port = |n: Option<&str>, p: i32| EndpointPort { name: n.map(|s| s.to_string()), port: p };
    Endpoints {
        metadata: meta(name, Some(namespace)),
        subsets: Some(vec![
            EndpointSubset {
                addresses: Some(vec![
                    EndpointAddress {
                        ip: "10.0.0.1".to_string(),
                        target_ref: Some(ObjectReference {
                            kind: Some("Pod".to_string()),
                            name: Some("p1".to_string()),
                        }),
                    },
                    EndpointAddress { ip: "10.0.0.2".to_string(), target_ref: None },
                ]),
                ports: Some(vec![port(Some("web"), 80), port(Some("metrics"), 9100)]),
            },
            EndpointSubset { addresses: None, ports: Some(vec![port(None, 1)]) },
            EndpointSubset { addresses: Some(vec![]), ports: None },
        ]),
    }
}

fn snapshot() -> Snapshot {
    Snapshot {
        endpoints: vec![endpoints("svc", "ns"), endpoints("other", "ns2")],
        pods: vec![
            pod("p1", "ns", Some("10.0.0.1"), Some("n1")),
            pod("p1", "ns3", None, None),
        ],
        services: vec![Service { metadata: meta("svc", Some("ns")) }],
        nodes: vec![
            node("n1", &[("Hostname", "h"), ("InternalIP", "192.168.0.1")]),
            node("n2", &[("Hostname", "h2")]),
            node("n3", &[]),
        ],
    }
}

fn urls(targets: &[DiscoveredTarget]) -> Vec<&str> {
    targets.iter().map(|t| t.url.as_str()).collect()
}

fn gauge() -> Metric<f64> {
    Metric::new("m".to_string(), MetricKind::Absolute, MetricValue::Gauge { value: 1.0 })
}

fn target() -> DiscoveredTarget {
    DiscoveredTarget {
        url: "http://10.0.0.1:9100/metrics".to_string(),
        job_name: "job".to_string(),
        node_metadata: Some(Arc::new(NodeMetadata {
            name: "n1".to_string(),
            labels: map(&[("zone", "z1")]),
            node_ip: Some("192.168.0.1".to_string()),
        })),
        service_metadata: Some(Arc::new(ServiceMetadata {
            name: "svc".to_string(),
            namespace: "ns".to_string(),
            labels: map(&[("tier", "front")]),
            annotations: map(&[("a.b/c-d", "x")]),
        })),
        pod_metadata: Some(Arc::new(PodMetadata {
            name: "p1".to_string(),
            namespace: "ns".to_string(),
            labels: map(&[("a-b", "1"), ("a.b", "2"), ("c", "3")]),
            annotations: map(&[("note", "n")]),
            pod_ip: Some("10.0.0.1".to_string()),
        })),
    }
}

#[test]
fn preserves_metric_pod_and_namespace_when_target_metadata_overrides_them() {
    let target = DiscoveredTarget {
        url: "http://node-exporter:9111/metrics".to_owned(),
        job_name: "node-exporter".to_owned(),
        node_metadata: None,
        service_metadata: None,
        pod_metadata: Some(Arc::new(PodMetadata {
            name: "vector-scraper".to_owned(),
            namespace: "monitoring".to_owned(),
            labels: TextMap::new(),
            annotations: TextMap::new(),
            pod_ip: None,
        })),
    };
    let mut metric = Metric::new(
        "dcgm_job_info".to_owned(),
        MetricKind::Absolute,
        MetricValue::Gauge { value: 1.0 },
    );
    metric.replace_tag("pod".to_owned(), "workload-pod".to_owned());
    metric.replace_tag("namespace".to_owned(), "workload-namespace".to_owned());

    add_metadata_to_metric(&mut metric, &target, &MetadataLabelsConfig::default(), false);

    assert_eq!(metric.tag_value("pod"), Some("vector-scraper".to_owned()));
    assert_eq!(metric.tag_value("namespace"), Some("monitoring".to_owned()));
    assert_eq!(metric.tag_value("exported_pod"), Some("workload-pod".to_owned()));
    assert_eq!(
        metric.tag_value("exported_namespace"),
        Some("workload-namespace".to_owned())
    );
}

#[test]
fn all_metadata_becomes_tags() {
    let mut c = MetadataLabelsConfig::default();
    c.label_prefix = "k8s_".to_string();
    c.pod_labels = LabelSelector::All("*".to_string());
    c.pod_annotations = LabelSelector::Specific(vec!["note".to_string()]);
    c.service_labels = LabelSelector::Specific(vec!["none".to_string()]);
    c.service_annotations = LabelSelector::All("*".to_string());
    c.node_labels = LabelSelector::All("some".to_string());
    let mut m = gauge();
    add_metadata_to_metric(&mut m, &target(), &c, false);
    let tag = |n: &str| m.tag_value(n);
    assert_eq!(tag("k8s_job").as_deref(), Some("job"));
    assert_eq!(tag("k8s_endpoint").as_deref(), Some("http://10.0.0.1:9100/metrics"));
    assert_eq!(tag("k8s_namespace").as_deref(), Some("ns"));
    assert_eq!(tag("k8s_pod").as_deref(), Some("p1"));
    assert_eq!(tag("k8s_pod_ip").as_deref(), Some("10.0.0.1"));
    assert_eq!(tag("k8s_pod_label_a_b").as_deref(), Some("2"));
    assert_eq!(tag("k8s_pod_label_c").as_deref(), Some("3"));
    assert_eq!(tag("k8s_pod_annotation_note").as_deref(), Some("n"));
    assert_eq!(tag("k8s_node").as_deref(), Some("n1"));
    assert_eq!(tag("k8s_host_ip").as_deref(), Some("192.168.0.1"));
    assert_eq!(tag("k8s_node_label_zone"), None);
    assert_eq!(tag("k8s_service").as_deref(), Some("svc"));
    assert_eq!(tag("k8s_service_label_tier"), None);
    assert_eq!(tag("k8s_service_annotation_a_b_c_d").as_deref(), Some("x"));
    assert_eq!(tag("exported_k8s_pod"), None);
}

#[test]
fn switched_off_metadata_is_left_out() {
    let mut c = MetadataLabelsConfig::default();
    c.namespace = false;
    c.pod_name = false;
    c.pod_ip = false;
    c.node_name = false;
    c.host_ip = false;
    c.service_name = false;
    let mut m = gauge();
    add_metadata_to_metric(&mut m, &target(), &c, false);
    for name in ["namespace", "pod", "pod_ip", "node", "host_ip", "service"] {
        assert_eq!(m.tag_value(name), None, "{}", name);
    }
    assert_eq!(m.tag_value("job").as_deref(), Some("job"));
}

#[test]
fn honored_labels_stay() {
    let mut m = gauge();
    for name in ["job", "endpoint", "pod", "node", "pod_label_c"] {
        m.replace_tag(name.to_string(), "mine".to_string());
    }
    let mut c = MetadataLabelsConfig::default();
    c.pod_labels = LabelSelector::All("*".to_string());
    add_metadata_to_metric(&mut m, &target(), &c, true);
    for name in ["job", "endpoint", "pod", "node", "pod_label_c"] {
        assert_eq!(m.tag_value(name).as_deref(), Some("mine"), "{}", name);
    }
    assert_eq!(m.tag_value("pod_label_a_b").as_deref(), Some("1"));
    assert_eq!(m.tag_value("namespace").as_deref(), Some("ns"));
    assert_eq!(m.tag_value("exported_pod"), None);
}

#[test]
fn label_names_do_not_begin_with_a_digit() {
    assert_eq!(sanitize_label_name("3scale.net/app"), "_3scale_net_app");
    assert_eq!(sanitize_label_name("9"), "_9");
    assert_eq!(sanitize_label_name("a9"), "a9");
    assert_eq!(sanitize_label_name("-9"), "_9");
    assert_eq!(sanitize_label_name(""), "");
}

#[test]
fn label_names_are_made_legal() {
    assert_eq!(sanitize_label_name("app.kubernetes.io/part-of_x"), "app_kubernetes_io_part_of_x");
}

#[test]
fn selectors() {
    let all = LabelSelector::All("*".to_string());
    let odd = LabelSelector::All("x".to_string());
    let none = LabelSelector::default();
    let some = LabelSelector::Specific(vec!["a".to_string()]);
    assert!(all.is_all() && !odd.is_all() && !none.is_all() && !some.is_all());
    assert!(none.is_none() && !all.is_none() && !some.is_none());
    assert_eq!(some.keys(), Some(&vec!["a".to_string()]));
    assert!(all.keys().is_none() && none.keys().is_none());
    assert!(some.takes("a") && !some.takes("b") && all.takes("b") && !odd.takes("x"));
}

#[test]
fn targets_are_found_behind_services() {
    let d = K8sServiceDiscovery::new(config(KubernetesRole::Endpoints), &snapshot());
    let targets = d.get_targets();
    assert_eq!(
        urls(&targets)[..4],
        [
            "http://10.0.0.1:80/metrics",
            "http://10.0.0.1:9100/metrics",
            "http://10.0.0.2:80/metrics",
            "http://10.0.0.2:9100/metrics"
        ]
    );
    assert_eq!(targets.len(), 8);
    assert_eq!(targets[0].job_name, "job");
    assert_eq!(targets[0].pod_name(), Some("p1"));
    assert_eq!(targets[0].pod_namespace(), Some("ns"));
    assert_eq!(targets[0].node_name(), Some("n1"));
    assert_eq!(
        targets[0].node_metadata.as_ref().unwrap().node_ip.as_deref(),
        Some("192.168.0.1")
    );
    assert_eq!(targets[0].service_name(), Some("svc"));
    assert_eq!(targets[0].service_namespace(), Some("ns"));
    assert_eq!(targets[2].pod_name(), None);
    assert_eq!(targets[4].pod_name(), None);
    assert_eq!(targets[4].service_name(), None);
}

#[test]
fn ports_and_namespaces_narrow_the_search() {
    let mut c = config(KubernetesRole::Endpoints);
    c.namespaces = vec!["ns".to_string()];
    c.port = Some("metrics".to_string());
    c.scheme = "https".to_string();
    c.metrics_path = "/m".to_string();
    let d = K8sServiceDiscovery::new(c.clone(), &snapshot());
    assert_eq!(urls(&d.get_targets()), ["https://10.0.0.1:9100/m", "https://10.0.0.2:9100/m"]);
    c.port = Some("80".to_string());
    let d = K8sServiceDiscovery::new(c.clone(), &snapshot());
    assert_eq!(urls(&d.get_targets()), ["https://10.0.0.1:80/m", "https://10.0.0.2:80/m"]);
    c.port = Some("9101".to_string());
    let mut d = K8sServiceDiscovery::new(c, &snapshot());
    assert_eq!(d.get_targets().len(), 0);
    let mut unnamed = snapshot();
    unnamed.endpoints[0].metadata.name = None;
    unnamed.endpoints[1].metadata.namespace = None;
    d.refresh(&unnamed);
    assert_eq!(d.get_targets().len(), 0);
}

#[test]
fn objects_without_a_namespace_are_found_last() {
    let mut s = snapshot();
    s.services = vec![Service { metadata: meta("svc", None) }];
    let d = K8sServiceDiscovery::new(config(KubernetesRole::Endpoints), &s);
    assert_eq!(d.get_targets()[0].service_name(), Some("svc"));
    assert_eq!(d.get_targets()[0].service_namespace(), Some(""));
    s.services = vec![Service { metadata: meta("svc", Some("elsewhere")) }];
    let d = K8sServiceDiscovery::new(config(KubernetesRole::Endpoints), &s);
    assert_eq!(d.get_targets()[0].service_name(), None);
}

#[test]
fn targets_are_found_on_nodes() {
    let mut c = config(KubernetesRole::Node);
    c.port = Some("9100".to_string());
    let d = K8sServiceDiscovery::new(c.clone(), &snapshot());
    let targets = d.get_targets();
    assert_eq!(
        urls(&targets),
        ["http://192.168.0.1:9100/metrics", "http://h2:9100/metrics"]
    );
    assert_eq!(targets[0].node_name(), Some("n1"));
    assert_eq!(targets[1].node_metadata.as_ref().unwrap().node_ip, None);
    assert!(targets[0].pod_metadata.is_none() && targets[0].service_metadata.is_none());
    c.port = None;
    let d = K8sServiceDiscovery::new(c.clone(), &snapshot());
    assert_eq!(d.get_targets().len(), 0);
    c.port = Some("65536".to_string());
    let d = K8sServiceDiscovery::new(c, &snapshot());
    assert_eq!(d.get_targets().len(), 0);
    assert_eq!(
        d.discover_from_node_internal(&snapshot(), &snapshot().nodes[0]).err(),
        Some("Invalid port: 65536".to_string())
    );
}

#[test]
fn selectors_apply_to_what_is_looked_for() {
    let d = K8sServiceDiscovery::new(config(KubernetesRole::Node), &snapshot());
    let plan = d.watch_plan();
    assert_eq!(plan.nodes.label_selector.as_deref(), Some("app=x"));
    assert_eq!(plan.nodes.field_selector, None);
    assert_eq!(plan.nodes.delete_delay_secs, 60);
    assert_eq!(plan.endpoints.label_selector.as_deref(), Some("app=x"));
    assert_eq!(plan.endpoints.delete_delay_secs, 30);
    assert_eq!(plan.pods.label_selector, None);
    assert_eq!(plan.services.label_selector, None);
    assert_eq!(plan.poll_secs, 5);
    let d = K8sServiceDiscovery::new(config(KubernetesRole::Endpoints), &snapshot());
    assert_eq!(d.watch_plan().nodes.label_selector, None);
}

fn pod_meta(name: &str) -> Arc<PodMetadata> {
    Arc::new(PodMetadata {
        name: name.to_string(),
        namespace: "ns".to_string(),
        labels: TextMap::new(),
        annotations: TextMap::new(),
        pod_ip: None,
    })
}

#[test]
fn the_cache_gives_back_what_it_was_given() {
    let mut cache = MetadataCache::new();
    assert!(cache.get_pod_cached("ns", "p").is_none());
    cache.update_pod("ns", "p", pod_meta("p"));
    cache.update_pod("ns", "q", pod_meta("q"));
    cache.update_pod("nsx", "p", pod_meta("other"));
    assert_eq!(cache.get_pod_cached("ns", "p").unwrap().name, "p");
    cache.remove_pod("ns", "p");
    assert!(cache.get_pod_cached("ns", "p").is_none());
    cache.clear_namespace_pods("ns");
    assert!(cache.get_pod_cached("ns", "q").is_none());
    assert_eq!(cache.get_pod_cached("nsx", "p").unwrap().name, "other");
}

#[test]
fn what_is_not_cached_is_fetched() {
    let mut cache = MetadataCache::new();
    assert!(cache.get_or_fetch_pod("ns", "p", None).is_none());
    let found = pod("p", "ns", Some("1.1.1.1"), None);
    let got = cache.get_or_fetch_pod("ns", "p", Some(found)).unwrap();
    assert_eq!(got.pod_ip.as_deref(), Some("1.1.1.1"));
    let again = cache.get_or_fetch_pod("ns", "p", Some(pod("p", "ns", None, None))).unwrap();
    assert_eq!(again.pod_ip.as_deref(), Some("1.1.1.1"));
    let n = cache.get_or_fetch_node("asked", Some(node("n", &[("Hostname", "h")]))).unwrap();
    assert_eq!(n.name, "asked");
    assert_eq!(n.node_ip.as_deref(), Some("h"));
    assert!(cache.get_node_cached("asked").is_some());
    cache.remove_node("asked");
    assert!(cache.get_node_cached("asked").is_none());
    cache.get_or_fetch_node("asked", Some(node("n", &[])));
    cache.clear_all_nodes();
    assert!(cache.get_node_cached("asked").is_none());
    let s = Service { metadata: meta("s", Some("ns")) };
    assert_eq!(cache.get_or_fetch_service("ns", "s", Some(s)).unwrap().name, "s");
    assert!(cache.get_service_cached("ns", "s").is_some());
    cache.clear_namespace_services("ns");
    assert!(cache.get_service_cached("ns", "s").is_none());
    let on = pod("p", "ns", None, Some("n9"));
    assert_eq!(get_node_name_from_pod::<()>(Ok(on)), Ok(Some("n9".to_string())));
    assert_eq!(get_node_name_from_pod(Err(5)), Err(5));
}

#[test]
fn watches_live_with_their_users() {
    let mut m = NamespaceWatchManager::new();
    assert_eq!(m.unregister_namespace("ns"), WatchAction::Keep);
    let (g1, a1) = NamespaceWatchGuard::new("ns".to_string(), &mut m);
    let (g2, a2) = NamespaceWatchGuard::new("ns".to_string(), &mut m);
    assert_eq!((a1, a2), (WatchAction::Start, WatchAction::Keep));
    assert_eq!(m.register_namespace("other"), WatchAction::Start);
    assert_eq!(m.namespace_users("ns"), 2);
    assert_eq!(m.namespace_users("nobody"), 0);
    assert_eq!(g1.release(&mut m), WatchAction::Keep);
    assert_eq!(g2.release(&mut m), WatchAction::Stop);
    assert_eq!(m.unregister_namespace("ns"), WatchAction::Keep);
    assert_eq!(m.unregister_namespace("other"), WatchAction::Stop);
    let (n1, b1) = NodeWatchGuard::new(&mut m);
    let (n2, b2) = NodeWatchGuard::new(&mut m);
    assert_eq!((b1, b2), (WatchAction::Start, WatchAction::Keep));
    assert_eq!(m.node_watch_users(), 2);
    assert_eq!(n1.release(&mut m), WatchAction::Keep);
    assert_eq!(n2.release(&mut m), WatchAction::Stop);
    assert_eq!(m.unregister_node_watch(), WatchAction::Keep);
    assert_eq!(m.node_watch_users(), 0);
}

#[test]
fn watches_keep_the_cache_up_to_date() {
    let mut m = NamespaceWatchManager::new();
    m.apply_pod_event("ns", WatchEvent::Init);
    m.apply_pod_event("ns", WatchEvent::InitApply(pod("p", "ns", Some("1.1.1.1"), None)));
    let first = m.get_cache().get_pod_cached("ns", "p").unwrap();
    m.apply_pod_event("ns", WatchEvent::Apply(pod("p", "changed", Some("1.1.1.1"), None)));
    let same = m.get_cache().get_pod_cached("ns", "p").unwrap();
    assert!(Arc::ptr_eq(&first, &same));
    m.apply_pod_event("ns", WatchEvent::Apply(pod("p", "ns", Some("2.2.2.2"), None)));
    let moved = m.get_cache().get_pod_cached("ns", "p").unwrap();
    assert_eq!(moved.pod_ip.as_deref(), Some("2.2.2.2"));
    let mut relabelled = pod("p", "ns", Some("2.2.2.2"), None);
    relabelled.metadata.labels = None;
    m.apply_pod_event("ns", WatchEvent::Apply(relabelled));
    assert_eq!(m.get_cache().get_pod_cached("ns", "p").unwrap().labels.len(), 0);
    m.apply_pod_event("ns", WatchEvent::Error);
    m.apply_pod_event("ns", WatchEvent::InitDone);
    assert!(m.get_cache().get_pod_cached("ns", "p").is_some());
    m.apply_pod_event("ns", WatchEvent::Delete(pod("p", "x", None, None)));
    assert!(m.get_cache().get_pod_cached("ns", "p").is_none());

    let s = || Service { metadata: meta("s", Some("ns")) };
    m.apply_service_event("ns", WatchEvent::Apply(s()));
    assert!(m.get_cache().get_service_cached("ns", "s").is_some());
    m.apply_service_event("ns", WatchEvent::Delete(s()));
    assert!(m.get_cache().get_service_cached("ns", "s").is_none());

    m.apply_node_event(WatchEvent::Apply(node("n", &[("Hostname", "h")])));
    let n = m.get_cache().get_node_cached("n").unwrap();
    assert_eq!(n.node_ip.as_deref(), Some("h"));
    m.apply_node_event(WatchEvent::Apply(node("n", &[("InternalIP", "i")])));
    let n = m.get_cache().get_node_cached("n").unwrap();
    assert_eq!(n.node_ip.as_deref(), Some("i"));
    m.apply_node_event(WatchEvent::Delete(node("n", &[])));
    assert!(m.get_cache().get_node_cached("n").is_none());
}

fn batch(url: &str) -> ScrapedBatch<f64> {
    ScrapedBatch { target_url: url.to_string(), events: vec![], event_count: 0 }
}

#[test]
fn the_oldest_batch_gives_way() {
    let mut q = BatchQueue::new(2);
    assert_eq!(q.capacity(), 2);
    assert!(q.push(batch("a"), 1).is_none());
    assert!(q.push(batch("b"), 2).is_none());
    let evicted = q.push(batch("c"), 3).unwrap();
    assert_eq!(evicted.batch.target_url, "a");
    assert_eq!(evicted.enqueued_at, 1);
    q.set_capacity(1);
    assert_eq!(q.push(batch("d"), 4).unwrap().batch.target_url, "b");
    assert_eq!(q.try_pop().unwrap().batch.target_url, "c");
    match q.pop(true) {
        PopStep::Got(b) => assert_eq!(b.batch.target_url, "d"),
        other => panic!("{:?}", other),
    }
    assert!(matches!(q.pop(false), PopStep::Wait));
    assert!(matches!(q.pop(true), PopStep::Finished));
    assert!(q.try_pop().is_none());
    let mut none = BatchQueue::new(0);
    assert!(none.push(batch("a"), 1).is_none());
    assert_eq!(none.push(batch("b"), 1).unwrap().batch.target_url, "a");
}

#[test]
fn workers_wait_until_they_are_wanted() {
    assert_eq!(next_worker_action(3, 4, WorkerEvent::Started), WorkerAction::TakeBatch);
    assert_eq!(next_worker_action(4, 4, WorkerEvent::Started), WorkerAction::AwaitDesired);
    assert_eq!(next_worker_action(4, 6, WorkerEvent::DesiredChanged), WorkerAction::TakeBatch);
    assert_eq!(next_worker_action(4, 4, WorkerEvent::BatchDone), WorkerAction::AwaitDesired);
    for e in [WorkerEvent::DesiredClosed, WorkerEvent::ShutDown, WorkerEvent::QueueFinished] {
        assert_eq!(next_worker_action(0, 6, e), WorkerAction::Stop);
    }
    let two = 2_000_000_000;
    assert_eq!(send_report(SendOutcome::Sent, two - 1, two - 1), SendReport::Nothing);
    assert_eq!(send_report(SendOutcome::Sent, two, 0), SendReport::Slow);
    assert_eq!(send_report(SendOutcome::Sent, 0, two), SendReport::Slow);
    assert_eq!(send_report(SendOutcome::Failed, two, two), SendReport::Failed);
    assert_eq!(send_report(SendOutcome::TimedOut, 0, 0), SendReport::TimedOut);
}

fn options(honor_labels: bool) -> ScrapeOptions {
    ScrapeOptions {
        honor_labels,
        instance_tag: Some("instance".to_string()),
        endpoint_tag: Some("address".to_string()),
    }
}

fn scraper(honor_labels: bool) -> K8sScraper {
    K8sScraper::new(config(KubernetesRole::Endpoints), &snapshot(), options(honor_labels))
}

#[test]
fn limits_follow_the_number_of_targets() {
    let limits = |n| {
        (
            K8sScraper::default_send_queue_capacity(n),
            K8sScraper::default_send_worker_count(n),
            K8sScraper::default_scrape_concurrency(n),
        )
    };
    assert_eq!(limits(0), (16, 4, 32));
    assert_eq!(limits(500), (16, 4, 32));
    assert_eq!(limits(501), (24, 4, 96));
    assert_eq!(limits(1000), (24, 4, 96));
    assert_eq!(limits(1001), (32, 6, 192));
    let mut s = scraper(false);
    assert_eq!(s.send_worker_spawn_limit(), 6);
    assert_eq!(s.send_timeout_secs(), 5);
    let plan = s.tick();
    assert_eq!(plan.targets.len(), 8);
    assert_eq!((plan.queue_capacity, plan.send_workers, plan.scrape_concurrency), (16, 4, 32));
    s.refresh(&Snapshot { endpoints: vec![], pods: vec![], services: vec![], nodes: vec![] });
    assert_eq!(s.tick().targets.len(), 0);
    let mut c = config(KubernetesRole::Endpoints);
    c.send_queue_capacity = Some(7);
    c.send_worker_count = Some(8);
    c.scrape_concurrency = Some(9);
    assert!(c.has_valid_limits());
    let s = K8sScraper::new(c, &snapshot(), options(false));
    assert_eq!(s.effective_send_queue_capacity(5000), 7);
    assert_eq!(s.effective_send_worker_count(5000), 8);
    assert_eq!(s.effective_scrape_concurrency(5000), 9);
    assert_eq!(s.send_worker_spawn_limit(), 8);
}

#[test]
fn a_limit_is_absent_or_above_zero() {
    let c = || config(KubernetesRole::Endpoints);
    assert!(c().has_valid_limits());
    let none_waits = KubernetesSdConfig { send_queue_capacity: Some(0), ..c() };
    let none_sends = KubernetesSdConfig { send_worker_count: Some(0), ..c() };
    let none_scrapes = KubernetesSdConfig { scrape_concurrency: Some(0), ..c() };
    let no_time = KubernetesSdConfig { send_timeout_secs: 0, ..c() };
    for refused in [none_waits, none_sends, none_scrapes, no_time] {
        assert!(!refused.has_valid_limits());
    }
}

fn up(m: &Metric<f64>) -> i64 {
    assert_eq!(m.name, "up");
    assert_eq!(m.tag_value("job").as_deref(), Some("job"));
    match m.value {
        MetricValue::IntegerGauge { whole } => whole,
        ref other => panic!("{:?}", other),
    }
}

fn begin(s: &K8sScraper, t: DiscoveredTarget) -> Scrape {
    match s.scrape_target::<f64>(t) {
        ScrapeStart::Request(scrape) => scrape,
        other => panic!("{:?}", other),
    }
}

#[test]
fn a_scrape_that_goes_well() {
    let s = scraper(false);
    let mut scrape = begin(&s, target());
    assert_eq!(scrape.target_uri().host.as_deref(), Some("10.0.0.1"));
    let uri = UriParts::parse("http://10.0.0.1:9100/metrics?a=b").unwrap();
    let step = s.scrape_step::<f64>(&mut scrape, &uri, ScrapeEvent::Head { status: 200 });
    assert!(matches!(step, ScrapeAction::ReadBody));
    let step = s.scrape_step::<f64>(&mut scrape, &uri, ScrapeEvent::BodyRead);
    assert!(matches!(step, ScrapeAction::Decode));
    let step = s.scrape_step::<f64>(&mut scrape, &uri, ScrapeEvent::Decoded);
    assert!(matches!(step, ScrapeAction::Parse));
    let mut m = gauge();
    m.replace_tag("instance".to_string(), "mine".to_string());
    let events = vec![m, gauge()];
    let step = s.scrape_step(&mut scrape, &uri, ScrapeEvent::Parsed { events });
    match step {
        ScrapeAction::Finish(b) => {
            assert_eq!(b.target_url, "http://10.0.0.1:9100/metrics");
            assert_eq!(b.event_count, 3);
            assert_eq!(b.events[0].tag_value("instance").as_deref(), Some("10.0.0.1:9100"));
            assert_eq!(
                b.events[0].tag_value("address").as_deref(),
                Some("http://10.0.0.1:9100/metrics?a=b")
            );
            assert_eq!(b.events[1].tag_value("pod").as_deref(), Some("p1"));
            assert_eq!(up(&b.events[2]), 1);
            assert_eq!(b.events[2].tag_value("instance"), None);
        }
        other => panic!("{:?}", other),
    }
    let after = s.scrape_step::<f64>(&mut scrape, &uri, ScrapeEvent::TimedOut);
    assert!(matches!(after, ScrapeAction::Nothing));
}

#[test]
fn a_scrape_keeps_honored_labels() {
    let s = scraper(true);
    let mut scrape = begin(&s, target());
    let uri = UriParts::parse("http://example.com/metrics").unwrap();
    s.scrape_step::<f64>(&mut scrape, &uri, ScrapeEvent::Head { status: 200 });
    s.scrape_step::<f64>(&mut scrape, &uri, ScrapeEvent::BodyRead);
    s.scrape_step::<f64>(&mut scrape, &uri, ScrapeEvent::Decoded);
    let mut m = gauge();
    m.replace_tag("instance".to_string(), "mine".to_string());
    let events = vec![m, gauge()];
    match s.scrape_step(&mut scrape, &uri, ScrapeEvent::Parsed { events }) {
        ScrapeAction::Finish(b) => {
            assert_eq!(b.events[0].tag_value("instance").as_deref(), Some("mine"));
            assert_eq!(b.events[1].tag_value("instance").as_deref(), Some("example.com:80"));
        }
        other => panic!("{:?}", other),
    }
}

fn ends_down(events: Vec<ScrapeEvent<f64>>) {
    let s = scraper(false);
    let mut scrape = begin(&s, target());
    let uri = UriParts::parse("http://10.0.0.1:9100/metrics").unwrap();
    let mut last = ScrapeAction::Nothing;
    for e in events {
        last = s.scrape_step(&mut scrape, &uri, e);
    }
    match last {
        ScrapeAction::Finish(b) => {
            assert_eq!(b.event_count, 1);
            assert_eq!(b.events.len(), 1);
            assert_eq!(up(&b.events[0]), 0);
        }
        other => panic!("{:?}", other),
    }
}

#[test]
fn a_scrape_that_goes_wrong_is_down() {
    let head = || ScrapeEvent::Head { status: 200 };
    ends_down(vec![ScrapeEvent::Failed]);
    ends_down(vec![ScrapeEvent::Head { status: 404 }]);
    ends_down(vec![ScrapeEvent::Head { status: 204 }]);
    ends_down(vec![head(), ScrapeEvent::Failed]);
    ends_down(vec![head(), ScrapeEvent::TimedOut]);
    ends_down(vec![head(), ScrapeEvent::BodyRead, ScrapeEvent::Failed]);
    ends_down(vec![head(), ScrapeEvent::BodyRead, ScrapeEvent::Decoded, ScrapeEvent::Failed]);
    ends_down(vec![head(), head()]);
}

#[test]
fn a_target_without_an_address_is_down() {
    let s = scraper(false);
    let mut t = target();
    t.url = "http://[bad".to_string();
    assert!(UriParts::parse(&t.url).is_none());
    match s.scrape_target::<f64>(t) {
        ScrapeStart::Finished(b) => {
            assert_eq!(b.target_url, "http://[bad");
            assert_eq!(up(&b.events[0]), 0);
        }
        other => panic!("{:?}", other),
    }
    let e: Metric<f64> = build_up_event(&target(), &MetadataLabelsConfig::default(), 1);
    assert_eq!(up(&e), 1);
    assert_eq!(e.tag_value("service").as_deref(), Some("svc"));
}

//! Tags that say where a metric was scraped.
use vstd::prelude::*;

use super::k8s_discovery::{DiscoveredTarget, LabelSelector, MetadataLabelsConfig, TargetView};
use super::metadata_cache::{NodeView, PodView, ServiceView};
use crate::metric::{value_of, with_only, Metric, TagMap};
use crate::table::{text_rows, TextMap};
use crate::text::{chars_of, copy, join2, text_of};

verus! {

// ---------------------------------------------------------------------------
// Label names
// ---------------------------------------------------------------------------
/// The character that stands for `c` in a label name.
pub open spec fn label_char(c: char) -> char {
    if c == '.' || c == '/' || c == '-' {
        '_'
    } else {
        c
    }
}

/// A digit of a name.
pub open spec fn is_digit(c: char) -> bool {
    '0' <= c <= '9'
}

/// A letter of a name.
pub open spec fn is_letter(c: char) -> bool {
    'a' <= c <= 'z' || 'A' <= c <= 'Z'
}

/// `name` with `_` in place of each of `.`, `/` and `-`.
pub open spec fn label_chars(name: Seq<char>) -> Seq<char> {
    name.map_values(|c: char| label_char(c))
}

/// The label name that stands for `name`: `_` in place of each of `.`, `/` and `-`,
/// and one more `_` before a digit that the name begins with.
pub open spec fn label_name(name: Seq<char>) -> Seq<char> {
    if name.len() > 0 && is_digit(name[0]) {
        seq!['_'] + label_chars(name)
    } else {
        label_chars(name)
    }
}

/// A label name that Prometheus accepts: letters, digits and `_`, and no digit first.
pub open spec fn legal_label(s: Seq<char>) -> bool {
    &&& s.len() > 0
    &&& !is_digit(s[0])
    &&& forall|i: int|
        0 <= i < s.len() ==> is_letter(#[trigger] s[i]) || is_digit(s[i]) || s[i] == '_'
}

/// The name of a label or annotation in Kubernetes, without a prefix.
pub open spec fn bare_key(s: Seq<char>) -> bool {
    &&& s.len() > 0
    &&& forall|i: int|
        0 <= i < s.len() ==> is_letter(#[trigger] s[i]) || is_digit(s[i]) || s[i] == '-' || s[i]
            == '_' || s[i] == '.'
}

/// A domain, as it stands before the name of a label or annotation.
pub open spec fn domain(s: Seq<char>) -> bool {
    &&& s.len() > 0
    &&& forall|i: int|
        0 <= i < s.len() ==> is_letter(#[trigger] s[i]) || is_digit(s[i]) || s[i] == '-' || s[i]
            == '.'
}

/// `s` is a domain of `n` characters, a `/` and a name.
pub open spec fn prefixed_key(s: Seq<char>, n: int) -> bool {
    0 < n < s.len() && s[n] == '/' && domain(s.take(n)) && bare_key(s.skip(n + 1))
}

/// The key of a label or annotation in Kubernetes: a name, with a domain and `/` before
/// it or without.
pub open spec fn kubernetes_key(s: Seq<char>) -> bool {
    bare_key(s) || exists|n: int| prefixed_key(s, n)
}

/// What stands for a key of Kubernetes is a label name that Prometheus accepts.
pub proof fn law_label_names_are_legal(name: Seq<char>)
    requires
        kubernetes_key(name),
    ensures
        legal_label(label_name(name)),
{
    assert forall|i: int| 0 <= i < name.len() implies is_letter(#[trigger] name[i]) || is_digit(
        name[i],
    ) || name[i] == '-' || name[i] == '_' || name[i] == '.' || name[i] == '/' by {
        if !bare_key(name) {
            let n = choose|n: int| prefixed_key(name, n);
            if i < n {
                assert(name.take(n)[i] == name[i]);
            } else if i > n {
                assert(name.skip(n + 1)[i - n - 1] == name[i]);
            }
        }
    }
    let chars = label_chars(name);
    let label = label_name(name);
    assert forall|i: int| 0 <= i < label.len() implies is_letter(#[trigger] label[i]) || is_digit(
        label[i],
    ) || label[i] == '_' by {
        if is_digit(name[0]) {
            if i > 0 {
                assert(label[i] == chars[i - 1]);
                assert(chars[i - 1] == label_char(name[i - 1]));
            }
        } else {
            assert(label[i] == label_char(name[i]));
        }
    }
    assert(!is_digit(label[0])) by {
        if !is_digit(name[0]) {
            assert(label[0] == label_char(name[0]));
        }
    }
}

/// The label name that stands for the Kubernetes name: `_` in place of each of
/// `.`, `/` and `-`, and before a digit that it would begin with.
pub fn sanitize_label_name(name: &str) -> (r: String)
    ensures
        r@ == label_name(name@),
        kubernetes_key(name@) ==> legal_label(r@),
{
    let mut v = chars_of(name);
    let n: usize = v.len();
    let mut i: usize = 0;
    while i < n
        invariant
            n == v@.len(),
            n == name@.len(),
            i <= n,
            forall|j: int| 0 <= j < i ==> v@[j] == label_char(name@[j]),
            forall|j: int| i <= j < n ==> v@[j] == name@[j],
        decreases n - i,
    {
        let c = v[i];
        if c == '.' || c == '/' || c == '-' {
            v.set(i, '_');
        }
        i = i + 1;
    }
    assert(v@ =~= label_chars(name@));
    if n > 0 && '0' <= v[0] && v[0] <= '9' {
        v.insert(0, '_');
        assert(v@ =~= seq!['_'] + label_chars(name@));
    }
    proof {
        if kubernetes_key(name@) {
            law_label_names_are_legal(name@);
        }
    }
    text_of(&v)
}

// ---------------------------------------------------------------------------
// Tags
// ---------------------------------------------------------------------------
/// `tags` with a tag that gives way to a value that is there, where `honor` asks
/// for it.
pub open spec fn with_tag(tags: TagMap, name: Seq<char>, value: Seq<char>, honor: bool) -> TagMap {
    if honor && value_of(tags, name) is Some {
        tags
    } else {
        with_only(tags, name, value)
    }
}

/// `tags` with a tag of the target's pod. A value that it takes the place of stays
/// under `exported_` and the tag's name.
pub open spec fn with_target_tag(
    tags: TagMap,
    name: Seq<char>,
    value: Seq<char>,
    honor: bool,
) -> TagMap {
    match (honor, value_of(tags, name)) {
        (true, Some(_)) => tags,
        (false, Some(had)) => with_only(with_only(tags, name, value), "exported_"@ + name, had),
        _ => with_only(tags, name, value),
    }
}

/// `tags` with the selected labels, in their order.
pub open spec fn with_labels(
    tags: TagMap,
    labels: Seq<(Seq<char>, Seq<char>)>,
    selector: LabelSelector,
    prefix: Seq<char>,
    honor: bool,
) -> TagMap
    decreases labels.len(),
{
    if labels.len() == 0 {
        tags
    } else {
        let before = with_labels(tags, labels.drop_last(), selector, prefix, honor);
        let (key, value) = labels.last();
        if selector.selects(key) {
            with_tag(before, prefix + label_name(key), value, honor)
        } else {
            before
        }
    }
}

/// `tags` with what is known of the pod.
pub open spec fn with_pod(tags: TagMap, pod: PodView, c: MetadataLabelsConfig, honor: bool) -> TagMap {
    let p = c.label_prefix@;
    let t1 = if c.namespace {
        with_target_tag(tags, p + "namespace"@, pod.namespace, honor)
    } else {
        tags
    };
    let t2 = if c.pod_name {
        with_target_tag(t1, p + "pod"@, pod.name, honor)
    } else {
        t1
    };
    let t3 = match (c.pod_ip, pod.pod_ip) {
        (true, Some(ip)) => with_tag(t2, p + "pod_ip"@, ip, honor),
        _ => t2,
    };
    let t4 = with_labels(t3, pod.labels, c.pod_labels, p + "pod_label_"@, honor);
    with_labels(t4, pod.annotations, c.pod_annotations, p + "pod_annotation_"@, honor)
}

/// `tags` with what is known of the node.
pub open spec fn with_node(
    tags: TagMap,
    node: NodeView,
    c: MetadataLabelsConfig,
    honor: bool,
) -> TagMap {
    let p = c.label_prefix@;
    let t1 = if c.node_name {
        with_tag(tags, p + "node"@, node.name, honor)
    } else {
        tags
    };
    let t2 = match (c.host_ip, node.node_ip) {
        (true, Some(ip)) => with_tag(t1, p + "host_ip"@, ip, honor),
        _ => t1,
    };
    with_labels(t2, node.labels, c.node_labels, p + "node_label_"@, honor)
}

/// `tags` with what is known of the service.
pub open spec fn with_service(
    tags: TagMap,
    service: ServiceView,
    c: MetadataLabelsConfig,
    honor: bool,
) -> TagMap {
    let p = c.label_prefix@;
    let t1 = if c.service_name {
        with_tag(tags, p + "service"@, service.name, honor)
    } else {
        tags
    };
    let t2 = with_labels(t1, service.labels, c.service_labels, p + "service_label_"@, honor);
    with_labels(
        t2,
        service.annotations,
        c.service_annotations,
        p + "service_annotation_"@,
        honor,
    )
}

/// `tags` with the job and the address of the target.
pub open spec fn with_job(
    tags: TagMap,
    target: TargetView,
    c: MetadataLabelsConfig,
    honor: bool,
) -> TagMap {
    let p = c.label_prefix@;
    let t1 = with_tag(tags, p + "job"@, target.job_name, honor);
    with_tag(t1, p + "endpoint"@, target.url, honor)
}

/// `tags` with what is known of the target.
pub open spec fn enriched(
    tags: TagMap,
    target: TargetView,
    c: MetadataLabelsConfig,
    honor: bool,
) -> TagMap {
    let t1 = with_job(tags, target, c, honor);
    let t2 = match target.pod {
        Some(pod) => with_pod(t1, pod, c, honor),
        None => t1,
    };
    let t3 = match target.node {
        Some(node) => with_node(t2, node, c, honor),
        None => t2,
    };
    match target.service {
        Some(service) => with_service(t3, service, c, honor),
        None => t3,
    }
}

/// Adds a tag. Where `honor_labels` is set, a value that is there stays.
pub fn add_tag<D>(metric: &mut Metric<D>, tag_name: String, value: String, honor_labels: bool)
    ensures
        final(metric).tags@ == with_tag(
            old(metric).tags@,
            tag_name@,
            value@,
            honor_labels,
        ),
        final(metric).same_but_tags(*old(metric)),
{
    if !honor_labels || metric.tag_value(tag_name.as_str()).is_none() {
        let _ = metric.replace_tag(tag_name, value);
    }
}

/// Adds a tag of the target's pod. A value that it takes the place of stays under
/// `exported_` and the tag's name.
pub fn add_metadata_tag<D>(
    metric: &mut Metric<D>,
    tag_name: String,
    value: String,
    honor_labels: bool,
)
    ensures
        final(metric).tags@ == with_target_tag(
            old(metric).tags@,
            tag_name@,
            value@,
            honor_labels,
        ),
        final(metric).same_but_tags(*old(metric)),
{
    if honor_labels {
        if metric.tag_value(tag_name.as_str()).is_none() {
            let _ = metric.replace_tag(tag_name, value);
        }
    } else {
        let exported = join2("exported_", tag_name.as_str());
        match metric.replace_tag(tag_name, value) {
            Some(had) => {
                let _ = metric.replace_tag(exported, had);
            },
            None => {},
        }
    }
}

/// Adds the selected labels.
pub fn add_labels_to_metric<D>(
    metric: &mut Metric<D>,
    all_labels: &TextMap<String>,
    selector: &LabelSelector,
    prefix: &str,
    honor_labels: bool,
)
    ensures
        final(metric).tags@ == with_labels(
            old(metric).tags@,
            text_rows(*all_labels),
            *selector,
            prefix@,
            honor_labels,
        ),
        final(metric).same_but_tags(*old(metric)),
{
    let n: usize = all_labels.len();
    let mut i: usize = 0;
    let ghost rows = text_rows(*all_labels);
    assert(rows.take(0) =~= Seq::<(Seq<char>, Seq<char>)>::empty());
    while i < n
        invariant
            n == all_labels.rows().len(),
            rows == text_rows(*all_labels),
            i <= n,
            metric.tags@ == with_labels(
                old(metric).tags@,
                rows.take(i as int),
                *selector,
                prefix@,
                honor_labels,
            ),
            metric.same_but_tags(*old(metric)),
        decreases n - i,
    {
        assert(rows.take(i + 1).drop_last() =~= rows.take(i as int));
        assert(rows.take(i + 1).last() == rows[i as int]);
        let key = all_labels.key_at(i);
        if selector.takes(key) {
            let name = sanitize_label_name(key);
            add_tag(
                metric,
                join2(prefix, name.as_str()),
                copy(all_labels.value_at(i).as_str()),
                honor_labels,
            );
        }
        i = i + 1;
    }
    assert(rows.take(n as int) =~= rows);
}

fn add_pod_to_metric<D>(
    metric: &mut Metric<D>,
    pod: &super::metadata_cache::PodMetadata,
    config: &MetadataLabelsConfig,
    honor_labels: bool,
)
    ensures
        final(metric).tags@ == with_pod(old(metric).tags@, pod@, *config, honor_labels),
        final(metric).same_but_tags(*old(metric)),
{
    let p = config.label_prefix.as_str();
    if config.namespace {
        add_metadata_tag(
            metric,
            join2(p, "namespace"),
            copy(pod.namespace.as_str()),
            honor_labels,
        );
    }
    if config.pod_name {
        add_metadata_tag(metric, join2(p, "pod"), copy(pod.name.as_str()), honor_labels);
    }
    if config.pod_ip {
        match &pod.pod_ip {
            Some(ip) => add_tag(metric, join2(p, "pod_ip"), copy(ip.as_str()), honor_labels),
            None => {},
        }
    }
    let labels_prefix = join2(p, "pod_label_");
    add_labels_to_metric(
        metric,
        &pod.labels,
        &config.pod_labels,
        labels_prefix.as_str(),
        honor_labels,
    );
    let annotations_prefix = join2(p, "pod_annotation_");
    add_labels_to_metric(
        metric,
        &pod.annotations,
        &config.pod_annotations,
        annotations_prefix.as_str(),
        honor_labels,
    );
}

fn add_node_to_metric<D>(
    metric: &mut Metric<D>,
    node: &super::metadata_cache::NodeMetadata,
    config: &MetadataLabelsConfig,
    honor_labels: bool,
)
    ensures
        final(metric).tags@ == with_node(old(metric).tags@, node@, *config, honor_labels),
        final(metric).same_but_tags(*old(metric)),
{
    let p = config.label_prefix.as_str();
    if config.node_name {
        add_tag(metric, join2(p, "node"), copy(node.name.as_str()), honor_labels);
    }
    if config.host_ip {
        match &node.node_ip {
            Some(ip) => add_tag(metric, join2(p, "host_ip"), copy(ip.as_str()), honor_labels),
            None => {},
        }
    }
    let labels_prefix = join2(p, "node_label_");
    add_labels_to_metric(
        metric,
        &node.labels,
        &config.node_labels,
        labels_prefix.as_str(),
        honor_labels,
    );
}

fn add_service_to_metric<D>(
    metric: &mut Metric<D>,
    service: &super::metadata_cache::ServiceMetadata,
    config: &MetadataLabelsConfig,
    honor_labels: bool,
)
    ensures
        final(metric).tags@ == with_service(
            old(metric).tags@,
            service@,
            *config,
            honor_labels,
        ),
        final(metric).same_but_tags(*old(metric)),
{
    let p = config.label_prefix.as_str();
    if config.service_name {
        add_tag(metric, join2(p, "service"), copy(service.name.as_str()), honor_labels);
    }
    let labels_prefix = join2(p, "service_label_");
    add_labels_to_metric(
        metric,
        &service.labels,
        &config.service_labels,
        labels_prefix.as_str(),
        honor_labels,
    );
    let annotations_prefix = join2(p, "service_annotation_");
    add_labels_to_metric(
        metric,
        &service.annotations,
        &config.service_annotations,
        annotations_prefix.as_str(),
        honor_labels,
    );
}

/// Adds to `metric` what is known of the target that it was scraped from.
pub fn add_metadata_to_metric<D>(
    metric: &mut Metric<D>,
    target: &DiscoveredTarget,
    config: &MetadataLabelsConfig,
    honor_labels: bool,
)
    ensures
        final(metric).tags@ == enriched(
            old(metric).tags@,
            target@,
            *config,
            honor_labels,
        ),
        final(metric).same_but_tags(*old(metric)),
{
    let p = config.label_prefix.as_str();
    add_tag(metric, join2(p, "job"), copy(target.job_name.as_str()), honor_labels);
    add_tag(metric, join2(p, "endpoint"), copy(target.url.as_str()), honor_labels);
    match &target.pod_metadata {
        Some(pod) => add_pod_to_metric(metric, &**pod, config, honor_labels),
        None => {},
    }
    match &target.node_metadata {
        Some(node) => add_node_to_metric(metric, &**node, config, honor_labels),
        None => {},
    }
    match &target.service_metadata {
        Some(service) => add_service_to_metric(metric, &**service, config, honor_labels),
        None => {},
    }
}

// ---------------------------------------------------------------------------
// What enrichment keeps
// ---------------------------------------------------------------------------
proof fn lemma_honored_labels(
    tags: TagMap,
    labels: Seq<(Seq<char>, Seq<char>)>,
    selector: LabelSelector,
    prefix: Seq<char>,
    name: Seq<char>,
)
    requires
        value_of(tags, name) is Some,
    ensures
        value_of(with_labels(tags, labels, selector, prefix, true), name) == value_of(tags, name),
    decreases labels.len(),
{
    if labels.len() > 0 {
        lemma_honored_labels(tags, labels.drop_last(), selector, prefix, name);
    }
}

proof fn lemma_honored_pod(tags: TagMap, pod: PodView, c: MetadataLabelsConfig, name: Seq<char>)
    requires
        value_of(tags, name) is Some,
    ensures
        value_of(with_pod(tags, pod, c, true), name) == value_of(tags, name),
{
    let p = c.label_prefix@;
    let t1 = if c.namespace {
        with_target_tag(tags, p + "namespace"@, pod.namespace, true)
    } else {
        tags
    };
    let t2 = if c.pod_name {
        with_target_tag(t1, p + "pod"@, pod.name, true)
    } else {
        t1
    };
    let t3 = match (c.pod_ip, pod.pod_ip) {
        (true, Some(ip)) => with_tag(t2, p + "pod_ip"@, ip, true),
        _ => t2,
    };
    let t4 = with_labels(t3, pod.labels, c.pod_labels, p + "pod_label_"@, true);
    lemma_honored_labels(t3, pod.labels, c.pod_labels, p + "pod_label_"@, name);
    lemma_honored_labels(t4, pod.annotations, c.pod_annotations, p + "pod_annotation_"@, name);
}

proof fn lemma_honored_node(tags: TagMap, node: NodeView, c: MetadataLabelsConfig, name: Seq<char>)
    requires
        value_of(tags, name) is Some,
    ensures
        value_of(with_node(tags, node, c, true), name) == value_of(tags, name),
{
    let p = c.label_prefix@;
    let t1 = if c.node_name {
        with_tag(tags, p + "node"@, node.name, true)
    } else {
        tags
    };
    let t2 = match (c.host_ip, node.node_ip) {
        (true, Some(ip)) => with_tag(t1, p + "host_ip"@, ip, true),
        _ => t1,
    };
    lemma_honored_labels(t2, node.labels, c.node_labels, p + "node_label_"@, name);
}

proof fn lemma_honored_service(
    tags: TagMap,
    service: ServiceView,
    c: MetadataLabelsConfig,
    name: Seq<char>,
)
    requires
        value_of(tags, name) is Some,
    ensures
        value_of(with_service(tags, service, c, true), name) == value_of(tags, name),
{
    let p = c.label_prefix@;
    let t1 = if c.service_name {
        with_tag(tags, p + "service"@, service.name, true)
    } else {
        tags
    };
    let t2 = with_labels(t1, service.labels, c.service_labels, p + "service_label_"@, true);
    lemma_honored_labels(t1, service.labels, c.service_labels, p + "service_label_"@, name);
    lemma_honored_labels(
        t2,
        service.annotations,
        c.service_annotations,
        p + "service_annotation_"@,
        name,
    );
}

/// Where labels are honored, every value that a metric has stays as it is.
pub proof fn law_honored_values_stay(
    tags: TagMap,
    target: TargetView,
    c: MetadataLabelsConfig,
    name: Seq<char>,
)
    requires
        value_of(tags, name) is Some,
    ensures
        value_of(enriched(tags, target, c, true), name) == value_of(tags, name),
{
    let t1 = with_job(tags, target, c, true);
    let t2 = match target.pod {
        Some(pod) => with_pod(t1, pod, c, true),
        None => t1,
    };
    let t3 = match target.node {
        Some(node) => with_node(t2, node, c, true),
        None => t2,
    };
    match target.pod {
        Some(pod) => {
            lemma_honored_pod(t1, pod, c, name);
        },
        None => {},
    }
    match target.node {
        Some(node) => {
            lemma_honored_node(t2, node, c, name);
        },
        None => {},
    }
    match target.service {
        Some(service) => {
            lemma_honored_service(t3, service, c, name);
        },
        None => {},
    }
}

/// `name` is no tag that enrichment with the prefix `p` adds besides the pod's
/// name and namespace.
spec fn apart(p: Seq<char>, name: Seq<char>) -> bool {
    &&& name != p + "job"@
    &&& name != p + "endpoint"@
    &&& name != p + "pod_ip"@
    &&& name != p + "node"@
    &&& name != p + "host_ip"@
    &&& name != p + "service"@
    &&& !(p + "pod_label_"@).is_prefix_of(name)
    &&& !(p + "pod_annotation_"@).is_prefix_of(name)
    &&& !(p + "node_label_"@).is_prefix_of(name)
    &&& !(p + "service_label_"@).is_prefix_of(name)
    &&& !(p + "service_annotation_"@).is_prefix_of(name)
}

proof fn lemma_labels_apart(
    tags: TagMap,
    labels: Seq<(Seq<char>, Seq<char>)>,
    selector: LabelSelector,
    prefix: Seq<char>,
    honor: bool,
    name: Seq<char>,
)
    requires
        !prefix.is_prefix_of(name),
    ensures
        value_of(with_labels(tags, labels, selector, prefix, honor), name) == value_of(tags, name),
    decreases labels.len(),
{
    if labels.len() > 0 {
        lemma_labels_apart(tags, labels.drop_last(), selector, prefix, honor, name);
        let added = prefix + label_name(labels.last().0);
        assert(added != name) by {
            assert(added.take(prefix.len() as int) =~= prefix);
            assert(prefix.is_prefix_of(added));
        }
    }
}

proof fn lemma_node_apart(
    tags: TagMap,
    node: NodeView,
    c: MetadataLabelsConfig,
    honor: bool,
    name: Seq<char>,
)
    requires
        apart(c.label_prefix@, name),
    ensures
        value_of(with_node(tags, node, c, honor), name) == value_of(tags, name),
{
    let p = c.label_prefix@;
    let t1 = if c.node_name {
        with_tag(tags, p + "node"@, node.name, honor)
    } else {
        tags
    };
    let t2 = match (c.host_ip, node.node_ip) {
        (true, Some(ip)) => with_tag(t1, p + "host_ip"@, ip, honor),
        _ => t1,
    };
    lemma_labels_apart(t2, node.labels, c.node_labels, p + "node_label_"@, honor, name);
}

proof fn lemma_service_apart(
    tags: TagMap,
    service: ServiceView,
    c: MetadataLabelsConfig,
    honor: bool,
    name: Seq<char>,
)
    requires
        apart(c.label_prefix@, name),
    ensures
        value_of(with_service(tags, service, c, honor), name) == value_of(tags, name),
{
    let p = c.label_prefix@;
    let t1 = if c.service_name {
        with_tag(tags, p + "service"@, service.name, honor)
    } else {
        tags
    };
    let t2 = with_labels(t1, service.labels, c.service_labels, p + "service_label_"@, honor);
    lemma_labels_apart(t1, service.labels, c.service_labels, p + "service_label_"@, honor, name);
    lemma_labels_apart(
        t2,
        service.annotations,
        c.service_annotations,
        p + "service_annotation_"@,
        honor,
        name,
    );
}

proof fn lemma_cut(p: Seq<char>, a: Seq<char>, b: Seq<char>)
    requires
        a != b,
    ensures
        p + a != p + b,
{
    assert((p + a).skip(p.len() as int) =~= a);
    assert((p + b).skip(p.len() as int) =~= b);
}

proof fn lemma_cut_prefix(p: Seq<char>, a: Seq<char>, b: Seq<char>)
    requires
        !a.is_prefix_of(b),
    ensures
        !(p + a).is_prefix_of(p + b),
{
    if (p + a).is_prefix_of(p + b) {
        assert(a =~= b.take(a.len() as int)) by {
            assert forall|i: int| 0 <= i < a.len() implies a[i] == b[i] by {
                assert((p + a)[p.len() + i] == (p + b)[p.len() + i]);
            }
        }
    }
}

/// The tags of the pod's name and namespace, and where their values are kept, are
/// apart from every other tag.
proof fn lemma_pod_tags_apart(p: Seq<char>)
    ensures
        apart(p, p + "pod"@),
        apart(p, p + "namespace"@),
        apart(p, "exported_"@ + (p + "pod"@)),
        apart(p, "exported_"@ + (p + "namespace"@)),
        p + "pod"@ != p + "namespace"@,
        "exported_"@ + (p + "pod"@) != p + "pod"@,
        "exported_"@ + (p + "pod"@) != p + "namespace"@,
        "exported_"@ + (p + "namespace"@) != p + "pod"@,
        "exported_"@ + (p + "namespace"@) != p + "namespace"@,
        "exported_"@ + (p + "namespace"@) != "exported_"@ + (p + "pod"@),
{
    reveal_strlit("pod");
    reveal_strlit("namespace");
    reveal_strlit("exported_");
    reveal_strlit("job");
    reveal_strlit("endpoint");
    reveal_strlit("pod_ip");
    reveal_strlit("node");
    reveal_strlit("host_ip");
    reveal_strlit("service");
    reveal_strlit("pod_label_");
    reveal_strlit("pod_annotation_");
    reveal_strlit("node_label_");
    reveal_strlit("service_label_");
    reveal_strlit("service_annotation_");
    assert("namespace"@[0] == 'n');
    assert("pod_label_"@[0] == 'p' && "pod_annotation_"@[0] == 'p');
    assert("node_label_"@[1] == 'o' && "namespace"@[1] == 'a');
    assert("service_label_"@[0] == 's' && "service_annotation_"@[0] == 's');
    lemma_cut_prefix(p, "pod_label_"@, "namespace"@);
    lemma_cut_prefix(p, "pod_annotation_"@, "namespace"@);
    lemma_cut_prefix(p, "node_label_"@, "namespace"@);
    lemma_cut_prefix(p, "service_label_"@, "namespace"@);
    lemma_cut_prefix(p, "service_annotation_"@, "namespace"@);
    assert("job"@[0] == 'j' && "pod"@[0] == 'p');
    lemma_cut(p, "job"@, "pod"@);
    let xp = "exported_"@ + (p + "pod"@);
    let xn = "exported_"@ + (p + "namespace"@);
    let l = p.len() as int;
    assert(xp.len() == l + 12 && xn.len() == l + 18);
    assert(xp[l + 9] == 'p');
    assert(xn[l + 9] == 'n');
    assert((p + "pod_label_"@)[l + 9] == '_');
    assert((p + "pod_annotation_"@)[l + 9] == 'a');
    assert((p + "node_label_"@)[l + 9] == 'l');
    assert((p + "service_label_"@)[l + 9] == 'a');
}

proof fn lemma_pod_kept(
    tags: TagMap,
    pod: PodView,
    c: MetadataLabelsConfig,
)
    ensures
        c.pod_name ==> value_of(with_pod(tags, pod, c, false), c.label_prefix@ + "pod"@) == Some(
            pod.name,
        ),
        c.pod_name && value_of(tags, c.label_prefix@ + "pod"@) is Some ==> value_of(
            with_pod(tags, pod, c, false),
            "exported_"@ + (c.label_prefix@ + "pod"@),
        ) == value_of(tags, c.label_prefix@ + "pod"@),
        c.namespace ==> value_of(with_pod(tags, pod, c, false), c.label_prefix@ + "namespace"@)
            == Some(pod.namespace),
        c.namespace && value_of(tags, c.label_prefix@ + "namespace"@) is Some ==> value_of(
            with_pod(tags, pod, c, false),
            "exported_"@ + (c.label_prefix@ + "namespace"@),
        ) == value_of(tags, c.label_prefix@ + "namespace"@),
{
    let p = c.label_prefix@;
    lemma_pod_tags_apart(p);
    let t1 = if c.namespace {
        with_target_tag(tags, p + "namespace"@, pod.namespace, false)
    } else {
        tags
    };
    let t2 = if c.pod_name {
        with_target_tag(t1, p + "pod"@, pod.name, false)
    } else {
        t1
    };
    let t3 = match (c.pod_ip, pod.pod_ip) {
        (true, Some(ip)) => with_tag(t2, p + "pod_ip"@, ip, false),
        _ => t2,
    };
    let t4 = with_labels(t3, pod.labels, c.pod_labels, p + "pod_label_"@, false);
    lemma_rest_apart(t3, pod, c, p + "pod"@);
    lemma_rest_apart(t3, pod, c, p + "namespace"@);
    lemma_rest_apart(t3, pod, c, "exported_"@ + (p + "pod"@));
    lemma_rest_apart(t3, pod, c, "exported_"@ + (p + "namespace"@));
}

proof fn lemma_rest_apart(t3: TagMap, pod: PodView, c: MetadataLabelsConfig, name: Seq<char>)
    requires
        apart(c.label_prefix@, name),
    ensures
        value_of(
            with_labels(
                with_labels(
                    t3,
                    pod.labels,
                    c.pod_labels,
                    c.label_prefix@ + "pod_label_"@,
                    false,
                ),
                pod.annotations,
                c.pod_annotations,
                c.label_prefix@ + "pod_annotation_"@,
                false,
            ),
            name,
        ) == value_of(t3, name),
{
    let p = c.label_prefix@;
    let t4 = with_labels(t3, pod.labels, c.pod_labels, p + "pod_label_"@, false);
    lemma_labels_apart(t3, pod.labels, c.pod_labels, p + "pod_label_"@, false, name);
    lemma_labels_apart(t4, pod.annotations, c.pod_annotations, p + "pod_annotation_"@, false, name);
}

proof fn lemma_later_apart(
    tags: TagMap,
    target: TargetView,
    c: MetadataLabelsConfig,
    name: Seq<char>,
)
    requires
        apart(c.label_prefix@, name),
        target.pod is Some,
    ensures
        value_of(enriched(tags, target, c, false), name) == value_of(
            with_pod(with_job(tags, target, c, false), target.pod->0, c, false),
            name,
        ),
{
    let t2 = with_pod(with_job(tags, target, c, false), target.pod->0, c, false);
    let t3 = match target.node {
        Some(node) => with_node(t2, node, c, false),
        None => t2,
    };
    match target.node {
        Some(node) => {
            lemma_node_apart(t2, node, c, false, name);
        },
        None => {},
    }
    match target.service {
        Some(service) => {
            lemma_service_apart(t3, service, c, false, name);
        },
        None => {},
    }
}

/// Where labels are not honored, the pod's name and namespace take the place of
/// the metric's own `pod` and `namespace`, and the values that these had stay under
/// `exported_` and the tag's name.
pub proof fn law_overridden_values_are_exported(
    tags: TagMap,
    target: TargetView,
    c: MetadataLabelsConfig,
)
    requires
        target.pod is Some,
    ensures
        ({
            let after = enriched(tags, target, c, false);
            let pod = c.label_prefix@ + "pod"@;
            let namespace = c.label_prefix@ + "namespace"@;
            &&& c.pod_name ==> value_of(after, pod) == Some(target.pod->0.name)
            &&& c.pod_name && value_of(tags, pod) is Some ==> value_of(after, "exported_"@ + pod)
                == value_of(tags, pod)
            &&& c.namespace ==> value_of(after, namespace) == Some(target.pod->0.namespace)
            &&& c.namespace && value_of(tags, namespace) is Some ==> value_of(
                after,
                "exported_"@ + namespace,
            ) == value_of(tags, namespace)
        }),
{
    let p = c.label_prefix@;
    lemma_pod_tags_apart(p);
    let t1 = with_job(tags, target, c, false);
    lemma_pod_kept(t1, target.pod->0, c);
    lemma_later_apart(tags, target, c, p + "pod"@);
    lemma_later_apart(tags, target, c, p + "namespace"@);
    lemma_later_apart(tags, target, c, "exported_"@ + (p + "pod"@));
    lemma_later_apart(tags, target, c, "exported_"@ + (p + "namespace"@));
}

// ---------------------------------------------------------------------------
// What each tag comes from
// ---------------------------------------------------------------------------
/// Both have the same values of the tag.
pub open spec fn same_at(a: TagMap, b: TagMap, name: Seq<char>) -> bool {
    &&& a.contains_key(name) == b.contains_key(name)
    &&& a.contains_key(name) ==> a[name] == b[name]
}

/// The tag has that value and no other.
pub open spec fn only(tags: TagMap, name: Seq<char>, value: Seq<char>) -> bool {
    tags.contains_key(name) && tags[name] == seq![Some(value)]
}

/// What is told of a target takes the place of what the metric had, unless that is
/// honored; where nothing is told, the metric keeps what it had.
pub open spec fn settled(
    tags: TagMap,
    after: TagMap,
    name: Seq<char>,
    honor: bool,
    told: Option<Seq<char>>,
) -> bool {
    match told {
        Some(v) => if honor && value_of(tags, name) is Some {
            same_at(after, tags, name)
        } else {
            only(after, name, v)
        },
        None => same_at(after, tags, name),
    }
}

/// The selector takes the label: every one where it is `*`, else those that it names.
pub open spec fn picks(selector: LabelSelector, key: Seq<char>) -> bool {
    match selector {
        LabelSelector::All(s) => s@ == "*"@,
        LabelSelector::Specific(keys) => exists|i: int|
            0 <= i < keys@.len() && (#[trigger] keys@[i])@ == key,
    }
}

/// Label `i` is taken, and tells the tag `name`.
pub open spec fn label_tells(
    labels: Seq<(Seq<char>, Seq<char>)>,
    selector: LabelSelector,
    prefix: Seq<char>,
    i: int,
    name: Seq<char>,
) -> bool {
    0 <= i < labels.len() && picks(selector, labels[i].0) && name == prefix + label_name(
        labels[i].0,
    )
}

/// The tags behind a prefix are told by the labels that are taken, and by nothing
/// else. Of two labels that tell one tag the last counts, or the first where what is
/// there is honored.
pub open spec fn labels_told(
    tags: TagMap,
    after: TagMap,
    labels: Seq<(Seq<char>, Seq<char>)>,
    selector: LabelSelector,
    prefix: Seq<char>,
    honor: bool,
    name: Seq<char>,
) -> bool {
    &&& !honor ==> forall|i: int| #[trigger]
        label_tells(labels, selector, prefix, i, name) && (forall|j: int|
            i < j ==> !(#[trigger] label_tells(labels, selector, prefix, j, name))) ==> only(
            after,
            name,
            labels[i].1,
        )
    &&& honor && value_of(tags, name) is None ==> forall|i: int| #[trigger]
        label_tells(labels, selector, prefix, i, name) && (forall|j: int|
            j < i ==> !(#[trigger] label_tells(labels, selector, prefix, j, name))) ==> only(
            after,
            name,
            labels[i].1,
        )
    &&& honor && value_of(tags, name) is Some ==> same_at(after, tags, name)
    &&& (forall|i: int| !(#[trigger] label_tells(labels, selector, prefix, i, name))) ==> same_at(
        after,
        tags,
        name,
    )
}

/// A selector takes every label where it is `*`, and else those that it names.
pub proof fn law_selector_takes_what_it_names(selector: LabelSelector, key: Seq<char>)
    ensures
        picks(selector, key) <==> selector.selects(key),
{
    match selector {
        LabelSelector::All(_) => {},
        LabelSelector::Specific(keys) => {
            let t = crate::text::texts(keys@);
            if t.contains(key) {
                let i = choose|i: int| 0 <= i < t.len() && t[i] == key;
                assert(keys@[i]@ == key);
            }
            if exists|i: int| 0 <= i < keys@.len() && (#[trigger] keys@[i])@ == key {
                let i = choose|i: int| 0 <= i < keys@.len() && (#[trigger] keys@[i])@ == key;
                assert(t[i] == key);
            }
        },
    }
}

proof fn lemma_only_is_read(tags: TagMap, name: Seq<char>, v: Seq<char>)
    requires
        only(tags, name, v),
    ensures
        value_of(tags, name) == Some(v),
{
    assert(seq![Some(v)].last() == Some(v));
}

proof fn lemma_labels_told(
    tags: TagMap,
    labels: Seq<(Seq<char>, Seq<char>)>,
    selector: LabelSelector,
    prefix: Seq<char>,
    honor: bool,
    name: Seq<char>,
)
    ensures
        labels_told(
            tags,
            with_labels(tags, labels, selector, prefix, honor),
            labels,
            selector,
            prefix,
            honor,
            name,
        ),
    decreases labels.len(),
{
    let after = with_labels(tags, labels, selector, prefix, honor);
    if labels.len() > 0 {
        let rest = labels.drop_last();
        let n = labels.len() - 1;
        let before = with_labels(tags, rest, selector, prefix, honor);
        lemma_labels_told(tags, rest, selector, prefix, honor, name);
        law_selector_takes_what_it_names(selector, labels.last().0);
        assert forall|i: int| i != n implies label_tells(labels, selector, prefix, i, name)
            == #[trigger] label_tells(rest, selector, prefix, i, name) by {}
        assert(!label_tells(rest, selector, prefix, n, name));
        let here = label_tells(labels, selector, prefix, n, name);
        assert(!here ==> same_at(after, before, name));
        assert(here && !honor ==> only(after, name, labels[n].1));
        if !honor {
            assert forall|i: int| #[trigger]
                label_tells(labels, selector, prefix, i, name) && (forall|j: int|
                    i < j ==> !(#[trigger] label_tells(labels, selector, prefix, j, name)))
                implies only(after, name, labels[i].1) by {
                if i < n {
                    assert(label_tells(rest, selector, prefix, i, name));
                    assert(!label_tells(labels, selector, prefix, n, name));
                    assert forall|j: int| i < j implies !(#[trigger] label_tells(
                        rest,
                        selector,
                        prefix,
                        j,
                        name,
                    )) by {
                        if j != n {
                            assert(!label_tells(labels, selector, prefix, j, name));
                        }
                    }
                }
            }
        } else if value_of(tags, name) is None {
            assert forall|i: int| #[trigger]
                label_tells(labels, selector, prefix, i, name) && (forall|j: int|
                    j < i ==> !(#[trigger] label_tells(labels, selector, prefix, j, name)))
                implies only(after, name, labels[i].1) by {
                if i < n {
                    assert(label_tells(rest, selector, prefix, i, name));
                    assert forall|j: int| j < i implies !(#[trigger] label_tells(
                        rest,
                        selector,
                        prefix,
                        j,
                        name,
                    )) by {
                        assert(!label_tells(labels, selector, prefix, j, name));
                    }
                    assert(only(before, name, rest[i].1));
                    lemma_only_is_read(before, name, rest[i].1);
                } else {
                    assert forall|j: int| !(#[trigger] label_tells(
                        rest,
                        selector,
                        prefix,
                        j,
                        name,
                    )) by {
                        if j < n {
                            assert(!label_tells(labels, selector, prefix, j, name));
                        }
                    }
                    assert(same_at(before, tags, name));
                }
            }
        }
        if forall|i: int| !(#[trigger] label_tells(labels, selector, prefix, i, name)) {
            assert forall|i: int| !(#[trigger] label_tells(rest, selector, prefix, i, name)) by {
                if i != n {
                    assert(!label_tells(labels, selector, prefix, i, name));
                }
            }
        }
    }
}

/// Labels behind another prefix leave the tag alone.
proof fn lemma_labels_pass(
    tags: TagMap,
    labels: Seq<(Seq<char>, Seq<char>)>,
    selector: LabelSelector,
    prefix: Seq<char>,
    honor: bool,
    name: Seq<char>,
)
    requires
        !prefix.is_prefix_of(name),
    ensures
        same_at(with_labels(tags, labels, selector, prefix, honor), tags, name),
{
    lemma_labels_told(tags, labels, selector, prefix, honor, name);
    assert forall|i: int| !(#[trigger] label_tells(labels, selector, prefix, i, name)) by {
        if label_tells(labels, selector, prefix, i, name) {
            assert(name.take(prefix.len() as int) =~= prefix);
        }
    }
}

/// A tag of the job and the address.
pub open spec fn job_tag(p: Seq<char>, name: Seq<char>) -> bool {
    name == p + "job"@ || name == p + "endpoint"@
}

/// A tag of the pod, or of what the pod's name and namespace took the place of.
pub open spec fn pod_tag(p: Seq<char>, name: Seq<char>) -> bool {
    ||| name == p + "namespace"@
    ||| name == p + "pod"@
    ||| name == p + "pod_ip"@
    ||| name == "exported_"@ + (p + "namespace"@)
    ||| name == "exported_"@ + (p + "pod"@)
    ||| (p + "pod_label_"@).is_prefix_of(name)
    ||| (p + "pod_annotation_"@).is_prefix_of(name)
}

/// A tag of the node.
pub open spec fn node_tag(p: Seq<char>, name: Seq<char>) -> bool {
    ||| name == p + "node"@
    ||| name == p + "host_ip"@
    ||| (p + "node_label_"@).is_prefix_of(name)
}

/// A tag of the service.
pub open spec fn service_tag(p: Seq<char>, name: Seq<char>) -> bool {
    ||| name == p + "service"@
    ||| (p + "service_label_"@).is_prefix_of(name)
    ||| (p + "service_annotation_"@).is_prefix_of(name)
}

proof fn lemma_begins(p: Seq<char>, f: Seq<char>, name: Seq<char>, i: int)
    requires
        (p + f).is_prefix_of(name),
        0 <= i < f.len(),
    ensures
        name.len() >= p.len() + f.len(),
        name[p.len() + i] == f[i],
{
    assert(name.take((p.len() + f.len()) as int)[p.len() + i] == (p + f)[p.len() + i]);
}

/// A tag has only one origin.
proof fn lemma_one_origin(p: Seq<char>, name: Seq<char>)
    ensures
        job_tag(p, name) ==> !pod_tag(p, name) && !node_tag(p, name) && !service_tag(p, name),
        pod_tag(p, name) ==> !node_tag(p, name) && !service_tag(p, name),
        node_tag(p, name) ==> !service_tag(p, name),
{
    reveal_strlit("pod");
    reveal_strlit("namespace");
    reveal_strlit("job");
    reveal_strlit("endpoint");
    reveal_strlit("pod_ip");
    reveal_strlit("node");
    reveal_strlit("host_ip");
    reveal_strlit("service");
    reveal_strlit("pod_label_");
    reveal_strlit("pod_annotation_");
    reveal_strlit("node_label_");
    reveal_strlit("service_label_");
    reveal_strlit("service_annotation_");
    lemma_pod_tags_apart(p);
    let l = p.len() as int;
    let exported = name == "exported_"@ + (p + "namespace"@) || name == "exported_"@ + (p
        + "pod"@);
    if job_tag(p, name) {
        assert(name[l] == 'j' || name[l] == 'e');
    }
    if pod_tag(p, name) && !exported {
        if (p + "pod_label_"@).is_prefix_of(name) {
            lemma_begins(p, "pod_label_"@, name, 0);
        } else if (p + "pod_annotation_"@).is_prefix_of(name) {
            lemma_begins(p, "pod_annotation_"@, name, 0);
        }
        assert(name[l] == 'p' || (name[l] == 'n' && name.len() > l + 1 && name[l + 1] == 'a'));
    }
    if node_tag(p, name) {
        if (p + "node_label_"@).is_prefix_of(name) {
            lemma_begins(p, "node_label_"@, name, 0);
            lemma_begins(p, "node_label_"@, name, 1);
        }
        assert(name[l] == 'h' || (name[l] == 'n' && name[l + 1] == 'o'));
    }
    if service_tag(p, name) {
        if (p + "service_label_"@).is_prefix_of(name) {
            lemma_begins(p, "service_label_"@, name, 0);
        } else if (p + "service_annotation_"@).is_prefix_of(name) {
            lemma_begins(p, "service_annotation_"@, name, 0);
        }
        assert(name[l] == 's');
    }
}

proof fn lemma_job_pass(
    tags: TagMap,
    target: TargetView,
    c: MetadataLabelsConfig,
    honor: bool,
    name: Seq<char>,
)
    requires
        !job_tag(c.label_prefix@, name),
    ensures
        same_at(with_job(tags, target, c, honor), tags, name),
{
}

proof fn lemma_pod_pass(
    tags: TagMap,
    pod: PodView,
    c: MetadataLabelsConfig,
    honor: bool,
    name: Seq<char>,
)
    requires
        !pod_tag(c.label_prefix@, name),
    ensures
        same_at(with_pod(tags, pod, c, honor), tags, name),
{
    let p = c.label_prefix@;
    let t1 = if c.namespace {
        with_target_tag(tags, p + "namespace"@, pod.namespace, honor)
    } else {
        tags
    };
    let t2 = if c.pod_name {
        with_target_tag(t1, p + "pod"@, pod.name, honor)
    } else {
        t1
    };
    let t3 = match (c.pod_ip, pod.pod_ip) {
        (true, Some(ip)) => with_tag(t2, p + "pod_ip"@, ip, honor),
        _ => t2,
    };
    let t4 = with_labels(t3, pod.labels, c.pod_labels, p + "pod_label_"@, honor);
    lemma_labels_pass(t3, pod.labels, c.pod_labels, p + "pod_label_"@, honor, name);
    lemma_labels_pass(t4, pod.annotations, c.pod_annotations, p + "pod_annotation_"@, honor, name);
}

proof fn lemma_node_pass(
    tags: TagMap,
    node: NodeView,
    c: MetadataLabelsConfig,
    honor: bool,
    name: Seq<char>,
)
    requires
        !node_tag(c.label_prefix@, name),
    ensures
        same_at(with_node(tags, node, c, honor), tags, name),
{
    let p = c.label_prefix@;
    let t1 = if c.node_name {
        with_tag(tags, p + "node"@, node.name, honor)
    } else {
        tags
    };
    let t2 = match (c.host_ip, node.node_ip) {
        (true, Some(ip)) => with_tag(t1, p + "host_ip"@, ip, honor),
        _ => t1,
    };
    lemma_labels_pass(t2, node.labels, c.node_labels, p + "node_label_"@, honor, name);
}

proof fn lemma_service_pass(
    tags: TagMap,
    service: ServiceView,
    c: MetadataLabelsConfig,
    honor: bool,
    name: Seq<char>,
)
    requires
        !service_tag(c.label_prefix@, name),
    ensures
        same_at(with_service(tags, service, c, honor), tags, name),
{
    let p = c.label_prefix@;
    let t1 = if c.service_name {
        with_tag(tags, p + "service"@, service.name, honor)
    } else {
        tags
    };
    let t2 = with_labels(t1, service.labels, c.service_labels, p + "service_label_"@, honor);
    lemma_labels_pass(t1, service.labels, c.service_labels, p + "service_label_"@, honor, name);
    lemma_labels_pass(
        t2,
        service.annotations,
        c.service_annotations,
        p + "service_annotation_"@,
        honor,
        name,
    );
}

/// The tags after each of the steps.
spec fn after_job(tags: TagMap, target: TargetView, c: MetadataLabelsConfig, honor: bool) -> TagMap {
    with_job(tags, target, c, honor)
}

spec fn after_pod(tags: TagMap, target: TargetView, c: MetadataLabelsConfig, honor: bool) -> TagMap {
    match target.pod {
        Some(pod) => with_pod(after_job(tags, target, c, honor), pod, c, honor),
        None => after_job(tags, target, c, honor),
    }
}

spec fn after_node(tags: TagMap, target: TargetView, c: MetadataLabelsConfig, honor: bool) -> TagMap {
    match target.node {
        Some(node) => with_node(after_pod(tags, target, c, honor), node, c, honor),
        None => after_pod(tags, target, c, honor),
    }
}

/// A tag is only touched by the step that it comes from.
proof fn lemma_steps(
    tags: TagMap,
    target: TargetView,
    c: MetadataLabelsConfig,
    honor: bool,
    name: Seq<char>,
)
    ensures
        ({
            let p = c.label_prefix@;
            let t1 = after_job(tags, target, c, honor);
            let t2 = after_pod(tags, target, c, honor);
            let t3 = after_node(tags, target, c, honor);
            let t4 = enriched(tags, target, c, honor);
            &&& !job_tag(p, name) ==> same_at(t1, tags, name)
            &&& !pod_tag(p, name) ==> same_at(t2, t1, name)
            &&& !node_tag(p, name) ==> same_at(t3, t2, name)
            &&& !service_tag(p, name) ==> same_at(t4, t3, name)
        }),
{
    let p = c.label_prefix@;
    let t1 = after_job(tags, target, c, honor);
    let t2 = after_pod(tags, target, c, honor);
    let t3 = after_node(tags, target, c, honor);
    if !job_tag(p, name) {
        lemma_job_pass(tags, target, c, honor, name);
    }
    match target.pod {
        Some(pod) => {
            if !pod_tag(p, name) {
                lemma_pod_pass(t1, pod, c, honor, name);
            }
        },
        None => {},
    }
    match target.node {
        Some(node) => {
            if !node_tag(p, name) {
                lemma_node_pass(t2, node, c, honor, name);
            }
        },
        None => {},
    }
    match target.service {
        Some(service) => {
            if !service_tag(p, name) {
                lemma_service_pass(t3, service, c, honor, name);
            }
        },
        None => {},
    }
}

/// A tag that nothing is told of keeps the values that the metric had.
pub proof fn law_other_tags_stay(
    tags: TagMap,
    target: TargetView,
    c: MetadataLabelsConfig,
    honor: bool,
    name: Seq<char>,
)
    requires
        !job_tag(c.label_prefix@, name),
        target.pod is Some ==> !pod_tag(c.label_prefix@, name),
        target.node is Some ==> !node_tag(c.label_prefix@, name),
        target.service is Some ==> !service_tag(c.label_prefix@, name),
    ensures
        same_at(enriched(tags, target, c, honor), tags, name),
{
    lemma_steps(tags, target, c, honor, name);
}

/// Every metric tells the job and the address of its target.
pub proof fn law_job_and_address_are_told(
    tags: TagMap,
    target: TargetView,
    c: MetadataLabelsConfig,
    honor: bool,
)
    ensures
        ({
            let after = enriched(tags, target, c, honor);
            let p = c.label_prefix@;
            &&& settled(tags, after, p + "job"@, honor, Some(target.job_name))
            &&& settled(tags, after, p + "endpoint"@, honor, Some(target.url))
        }),
{
    reveal_strlit("job");
    reveal_strlit("endpoint");
    let p = c.label_prefix@;
    assert("job"@[0] == 'j' && "endpoint"@[0] == 'e');
    lemma_cut(p, "job"@, "endpoint"@);
    lemma_steps(tags, target, c, honor, p + "job"@);
    lemma_steps(tags, target, c, honor, p + "endpoint"@);
    lemma_one_origin(p, p + "job"@);
    lemma_one_origin(p, p + "endpoint"@);
}

/// What is told where the switch for it is on.
pub open spec fn where_on(on: bool, v: Option<Seq<char>>) -> Option<Seq<char>> {
    if on {
        v
    } else {
        None
    }
}

/// A metric of a target with a pod tells the pod's namespace, name and address, each
/// where it is switched on.
pub proof fn law_pod_is_told(
    tags: TagMap,
    target: TargetView,
    c: MetadataLabelsConfig,
    honor: bool,
    pod: PodView,
)
    requires
        target.pod == Some(pod),
    ensures
        ({
            let after = enriched(tags, target, c, honor);
            let p = c.label_prefix@;
            &&& settled(
                tags,
                after,
                p + "namespace"@,
                honor,
                where_on(c.namespace, Some(pod.namespace)),
            )
            &&& settled(tags, after, p + "pod"@, honor, where_on(c.pod_name, Some(pod.name)))
            &&& settled(tags, after, p + "pod_ip"@, honor, where_on(c.pod_ip, pod.pod_ip))
        }),
{
    let p = c.label_prefix@;
    let t0 = after_job(tags, target, c, honor);
    lemma_pod_names(p);
    lemma_pod_steps(t0, pod, c, honor, p + "namespace"@);
    lemma_pod_steps(t0, pod, c, honor, p + "pod"@);
    lemma_pod_steps(t0, pod, c, honor, p + "pod_ip"@);
    lemma_steps(tags, target, c, honor, p + "namespace"@);
    lemma_steps(tags, target, c, honor, p + "pod"@);
    lemma_steps(tags, target, c, honor, p + "pod_ip"@);
    lemma_one_origin(p, p + "namespace"@);
    lemma_one_origin(p, p + "pod"@);
    lemma_one_origin(p, p + "pod_ip"@);
}

/// The tags of a pod that are not told by labels are apart from each other and from
/// those that are.
proof fn lemma_pod_names(p: Seq<char>)
    ensures
        p + "namespace"@ != p + "pod"@,
        p + "namespace"@ != p + "pod_ip"@,
        p + "pod"@ != p + "pod_ip"@,
        "exported_"@ + (p + "pod"@) != p + "pod_ip"@,
        "exported_"@ + (p + "namespace"@) != p + "pod_ip"@,
        !(p + "pod_label_"@).is_prefix_of(p + "namespace"@),
        !(p + "pod_label_"@).is_prefix_of(p + "pod"@),
        !(p + "pod_label_"@).is_prefix_of(p + "pod_ip"@),
        !(p + "pod_annotation_"@).is_prefix_of(p + "namespace"@),
        !(p + "pod_annotation_"@).is_prefix_of(p + "pod"@),
        !(p + "pod_annotation_"@).is_prefix_of(p + "pod_ip"@),
{
    lemma_pod_tags_apart(p);
    reveal_strlit("pod");
    reveal_strlit("namespace");
    reveal_strlit("pod_ip");
    reveal_strlit("pod_label_");
    reveal_strlit("pod_annotation_");
    assert((p + "namespace"@).len() != (p + "pod"@).len());
    assert((p + "namespace"@).len() != (p + "pod_ip"@).len());
    assert((p + "pod"@).len() != (p + "pod_ip"@).len());
}

/// Of the steps that tell of a pod, each touches its own tag.
proof fn lemma_pod_steps(
    tags: TagMap,
    pod: PodView,
    c: MetadataLabelsConfig,
    honor: bool,
    name: Seq<char>,
)
    requires
        !(c.label_prefix@ + "pod_label_"@).is_prefix_of(name),
        !(c.label_prefix@ + "pod_annotation_"@).is_prefix_of(name),
    ensures
        ({
            let p = c.label_prefix@;
            let t1 = if c.namespace {
                with_target_tag(tags, p + "namespace"@, pod.namespace, honor)
            } else {
                tags
            };
            let t2 = if c.pod_name {
                with_target_tag(t1, p + "pod"@, pod.name, honor)
            } else {
                t1
            };
            let t3 = match (c.pod_ip, pod.pod_ip) {
                (true, Some(ip)) => with_tag(t2, p + "pod_ip"@, ip, honor),
                _ => t2,
            };
            same_at(with_pod(tags, pod, c, honor), t3, name)
        }),
        name == c.label_prefix@ + "namespace"@ ==> settled(
            tags,
            with_pod(tags, pod, c, honor),
            name,
            honor,
            where_on(c.namespace, Some(pod.namespace)),
        ),
        name == c.label_prefix@ + "pod"@ ==> settled(
            tags,
            with_pod(tags, pod, c, honor),
            name,
            honor,
            where_on(c.pod_name, Some(pod.name)),
        ),
        name == c.label_prefix@ + "pod_ip"@ ==> settled(
            tags,
            with_pod(tags, pod, c, honor),
            name,
            honor,
            where_on(c.pod_ip, pod.pod_ip),
        ),
{
    let p = c.label_prefix@;
    lemma_pod_tags_apart(p);
    lemma_pod_names(p);
    let t1 = if c.namespace {
        with_target_tag(tags, p + "namespace"@, pod.namespace, honor)
    } else {
        tags
    };
    let t2 = if c.pod_name {
        with_target_tag(t1, p + "pod"@, pod.name, honor)
    } else {
        t1
    };
    let t3 = match (c.pod_ip, pod.pod_ip) {
        (true, Some(ip)) => with_tag(t2, p + "pod_ip"@, ip, honor),
        _ => t2,
    };
    let t4 = with_labels(t3, pod.labels, c.pod_labels, p + "pod_label_"@, honor);
    lemma_labels_pass(t3, pod.labels, c.pod_labels, p + "pod_label_"@, honor, name);
    lemma_labels_pass(t4, pod.annotations, c.pod_annotations, p + "pod_annotation_"@, honor, name);
}

/// What stays of a value that the pod's name or namespace took the place of: the value
/// itself under `exported_` and the tag's name, and nothing where nothing was
/// replaced.
pub proof fn law_only_replaced_values_are_exported(
    tags: TagMap,
    target: TargetView,
    c: MetadataLabelsConfig,
    honor: bool,
    pod: PodView,
)
    requires
        target.pod == Some(pod),
    ensures
        ({
            let after = enriched(tags, target, c, honor);
            let p = c.label_prefix@;
            &&& settled(
                tags,
                after,
                "exported_"@ + (p + "namespace"@),
                false,
                where_on(c.namespace && !honor, value_of(tags, p + "namespace"@)),
            )
            &&& settled(
                tags,
                after,
                "exported_"@ + (p + "pod"@),
                false,
                where_on(c.pod_name && !honor, value_of(tags, p + "pod"@)),
            )
        }),
{
    let p = c.label_prefix@;
    let xn = "exported_"@ + (p + "namespace"@);
    let xp = "exported_"@ + (p + "pod"@);
    let t0 = after_job(tags, target, c, honor);
    lemma_pod_tags_apart(p);
    lemma_pod_names(p);
    lemma_pod_steps(t0, pod, c, honor, xn);
    lemma_pod_steps(t0, pod, c, honor, xp);
    lemma_steps(tags, target, c, honor, xn);
    lemma_steps(tags, target, c, honor, xp);
    lemma_steps(tags, target, c, honor, p + "namespace"@);
    lemma_steps(tags, target, c, honor, p + "pod"@);
    lemma_one_origin(p, xn);
    lemma_one_origin(p, xp);
    lemma_one_origin(p, p + "namespace"@);
    lemma_one_origin(p, p + "pod"@);
}

/// A metric of a target with a node tells the node's name and address, each where it
/// is switched on.
pub proof fn law_node_is_told(
    tags: TagMap,
    target: TargetView,
    c: MetadataLabelsConfig,
    honor: bool,
    node: NodeView,
)
    requires
        target.node == Some(node),
    ensures
        ({
            let after = enriched(tags, target, c, honor);
            let p = c.label_prefix@;
            &&& settled(tags, after, p + "node"@, honor, where_on(c.node_name, Some(node.name)))
            &&& settled(tags, after, p + "host_ip"@, honor, where_on(c.host_ip, node.node_ip))
        }),
{
    reveal_strlit("node");
    reveal_strlit("host_ip");
    reveal_strlit("node_label_");
    let p = c.label_prefix@;
    assert("node"@[0] == 'n' && "host_ip"@[0] == 'h');
    lemma_cut(p, "node"@, "host_ip"@);
    let t0 = after_pod(tags, target, c, honor);
    let t1 = if c.node_name {
        with_tag(t0, p + "node"@, node.name, honor)
    } else {
        t0
    };
    let t2 = match (c.host_ip, node.node_ip) {
        (true, Some(ip)) => with_tag(t1, p + "host_ip"@, ip, honor),
        _ => t1,
    };
    assert(!(p + "node_label_"@).is_prefix_of(p + "node"@));
    assert(!(p + "node_label_"@).is_prefix_of(p + "host_ip"@));
    lemma_labels_pass(t2, node.labels, c.node_labels, p + "node_label_"@, honor, p + "node"@);
    lemma_labels_pass(t2, node.labels, c.node_labels, p + "node_label_"@, honor, p + "host_ip"@);
    lemma_steps(tags, target, c, honor, p + "node"@);
    lemma_steps(tags, target, c, honor, p + "host_ip"@);
    lemma_one_origin(p, p + "node"@);
    lemma_one_origin(p, p + "host_ip"@);
}

/// A metric of a target behind a service tells the service's name, where that is
/// switched on.
pub proof fn law_service_is_told(
    tags: TagMap,
    target: TargetView,
    c: MetadataLabelsConfig,
    honor: bool,
    service: ServiceView,
)
    requires
        target.service == Some(service),
    ensures
        settled(
            tags,
            enriched(tags, target, c, honor),
            c.label_prefix@ + "service"@,
            honor,
            where_on(c.service_name, Some(service.name)),
        ),
{
    reveal_strlit("service");
    reveal_strlit("service_label_");
    reveal_strlit("service_annotation_");
    let p = c.label_prefix@;
    let t0 = after_node(tags, target, c, honor);
    let t1 = if c.service_name {
        with_tag(t0, p + "service"@, service.name, honor)
    } else {
        t0
    };
    let t2 = with_labels(t1, service.labels, c.service_labels, p + "service_label_"@, honor);
    let name = p + "service"@;
    assert(!(p + "service_label_"@).is_prefix_of(name));
    assert(!(p + "service_annotation_"@).is_prefix_of(name));
    lemma_labels_pass(t1, service.labels, c.service_labels, p + "service_label_"@, honor, name);
    lemma_labels_pass(
        t2,
        service.annotations,
        c.service_annotations,
        p + "service_annotation_"@,
        honor,
        name,
    );
    lemma_steps(tags, target, c, honor, name);
    lemma_one_origin(p, name);
}

proof fn lemma_told_between(
    a: TagMap,
    b: TagMap,
    x: TagMap,
    y: TagMap,
    labels: Seq<(Seq<char>, Seq<char>)>,
    selector: LabelSelector,
    prefix: Seq<char>,
    honor: bool,
    name: Seq<char>,
)
    requires
        labels_told(x, y, labels, selector, prefix, honor, name),
        same_at(x, a, name),
        same_at(b, y, name),
    ensures
        labels_told(a, b, labels, selector, prefix, honor, name),
{
}

/// The tags behind `node_label_` are told by the labels of the node that the
/// configuration takes of nodes, and by nothing else.
pub proof fn law_node_labels_are_told(
    tags: TagMap,
    target: TargetView,
    c: MetadataLabelsConfig,
    honor: bool,
    node: NodeView,
    name: Seq<char>,
)
    requires
        target.node == Some(node),
        (c.label_prefix@ + "node_label_"@).is_prefix_of(name),
    ensures
        labels_told(
            tags,
            enriched(tags, target, c, honor),
            node.labels,
            c.node_labels,
            c.label_prefix@ + "node_label_"@,
            honor,
            name,
        ),
{
    reveal_strlit("node");
    reveal_strlit("host_ip");
    reveal_strlit("node_label_");
    let p = c.label_prefix@;
    let t0 = after_pod(tags, target, c, honor);
    let t1 = if c.node_name {
        with_tag(t0, p + "node"@, node.name, honor)
    } else {
        t0
    };
    let t2 = match (c.host_ip, node.node_ip) {
        (true, Some(ip)) => with_tag(t1, p + "host_ip"@, ip, honor),
        _ => t1,
    };
    let t3 = with_labels(t2, node.labels, c.node_labels, p + "node_label_"@, honor);
    lemma_begins(p, "node_label_"@, name, 0);
    assert(name.len() > (p + "node"@).len() && name.len() > (p + "host_ip"@).len());
    lemma_labels_told(t2, node.labels, c.node_labels, p + "node_label_"@, honor, name);
    lemma_steps(tags, target, c, honor, name);
    lemma_one_origin(p, name);
    assert(same_at(t2, tags, name));
    lemma_told_between(
        tags,
        enriched(tags, target, c, honor),
        t2,
        t3,
        node.labels,
        c.node_labels,
        p + "node_label_"@,
        honor,
        name,
    );
}

/// The tags behind `pod_label_` are told by the labels of the pod that the
/// configuration takes of pods, and those behind `pod_annotation_` by the annotations
/// of the pod that it takes of pods.
pub proof fn law_pod_labels_are_told(
    tags: TagMap,
    target: TargetView,
    c: MetadataLabelsConfig,
    honor: bool,
    pod: PodView,
    name: Seq<char>,
)
    requires
        target.pod == Some(pod),
    ensures
        (c.label_prefix@ + "pod_label_"@).is_prefix_of(name) ==> labels_told(
            tags,
            enriched(tags, target, c, honor),
            pod.labels,
            c.pod_labels,
            c.label_prefix@ + "pod_label_"@,
            honor,
            name,
        ),
        (c.label_prefix@ + "pod_annotation_"@).is_prefix_of(name) ==> labels_told(
            tags,
            enriched(tags, target, c, honor),
            pod.annotations,
            c.pod_annotations,
            c.label_prefix@ + "pod_annotation_"@,
            honor,
            name,
        ),
{
    reveal_strlit("pod");
    reveal_strlit("pod_ip");
    reveal_strlit("namespace");
    reveal_strlit("pod_label_");
    reveal_strlit("pod_annotation_");
    let p = c.label_prefix@;
    let t0 = after_job(tags, target, c, honor);
    let t1 = if c.namespace {
        with_target_tag(t0, p + "namespace"@, pod.namespace, honor)
    } else {
        t0
    };
    let t2 = if c.pod_name {
        with_target_tag(t1, p + "pod"@, pod.name, honor)
    } else {
        t1
    };
    let t3 = match (c.pod_ip, pod.pod_ip) {
        (true, Some(ip)) => with_tag(t2, p + "pod_ip"@, ip, honor),
        _ => t2,
    };
    let t4 = with_labels(t3, pod.labels, c.pod_labels, p + "pod_label_"@, honor);
    let t5 = with_labels(t4, pod.annotations, c.pod_annotations, p + "pod_annotation_"@, honor);
    lemma_pod_tags_apart(p);
    lemma_pod_names(p);
    lemma_steps(tags, target, c, honor, name);
    lemma_one_origin(p, name);
    let after = enriched(tags, target, c, honor);
    if (p + "pod_label_"@).is_prefix_of(name) {
        lemma_begins(p, "pod_label_"@, name, 4);
        assert(!(p + "pod_annotation_"@).is_prefix_of(name)) by {
            if (p + "pod_annotation_"@).is_prefix_of(name) {
                lemma_begins(p, "pod_annotation_"@, name, 4);
            }
        }
        lemma_labels_told(t3, pod.labels, c.pod_labels, p + "pod_label_"@, honor, name);
        lemma_labels_pass(
            t4,
            pod.annotations,
            c.pod_annotations,
            p + "pod_annotation_"@,
            honor,
            name,
        );
        assert(same_at(t3, tags, name));
        lemma_told_between(
            tags,
            after,
            t3,
            t4,
            pod.labels,
            c.pod_labels,
            p + "pod_label_"@,
            honor,
            name,
        );
    }
    if (p + "pod_annotation_"@).is_prefix_of(name) {
        lemma_begins(p, "pod_annotation_"@, name, 4);
        assert(!(p + "pod_label_"@).is_prefix_of(name)) by {
            if (p + "pod_label_"@).is_prefix_of(name) {
                lemma_begins(p, "pod_label_"@, name, 4);
            }
        }
        lemma_labels_pass(t3, pod.labels, c.pod_labels, p + "pod_label_"@, honor, name);
        lemma_labels_told(
            t4,
            pod.annotations,
            c.pod_annotations,
            p + "pod_annotation_"@,
            honor,
            name,
        );
        assert(same_at(t4, tags, name));
        lemma_told_between(
            tags,
            after,
            t4,
            t5,
            pod.annotations,
            c.pod_annotations,
            p + "pod_annotation_"@,
            honor,
            name,
        );
    }
}

/// The tags behind `service_label_` are told by the labels of the service that the
/// configuration takes of services, and those behind `service_annotation_` by the
/// annotations of the service that it takes of services.
pub proof fn law_service_labels_are_told(
    tags: TagMap,
    target: TargetView,
    c: MetadataLabelsConfig,
    honor: bool,
    service: ServiceView,
    name: Seq<char>,
)
    requires
        target.service == Some(service),
    ensures
        (c.label_prefix@ + "service_label_"@).is_prefix_of(name) ==> labels_told(
            tags,
            enriched(tags, target, c, honor),
            service.labels,
            c.service_labels,
            c.label_prefix@ + "service_label_"@,
            honor,
            name,
        ),
        (c.label_prefix@ + "service_annotation_"@).is_prefix_of(name) ==> labels_told(
            tags,
            enriched(tags, target, c, honor),
            service.annotations,
            c.service_annotations,
            c.label_prefix@ + "service_annotation_"@,
            honor,
            name,
        ),
{
    reveal_strlit("service");
    reveal_strlit("service_label_");
    reveal_strlit("service_annotation_");
    let p = c.label_prefix@;
    let t0 = after_node(tags, target, c, honor);
    let t1 = if c.service_name {
        with_tag(t0, p + "service"@, service.name, honor)
    } else {
        t0
    };
    let t2 = with_labels(t1, service.labels, c.service_labels, p + "service_label_"@, honor);
    let t3 = with_labels(
        t2,
        service.annotations,
        c.service_annotations,
        p + "service_annotation_"@,
        honor,
    );
    lemma_steps(tags, target, c, honor, name);
    lemma_one_origin(p, name);
    let after = enriched(tags, target, c, honor);
    if (p + "service_label_"@).is_prefix_of(name) {
        lemma_begins(p, "service_label_"@, name, 8);
        assert(!(p + "service_annotation_"@).is_prefix_of(name)) by {
            if (p + "service_annotation_"@).is_prefix_of(name) {
                lemma_begins(p, "service_annotation_"@, name, 8);
            }
        }
        lemma_labels_told(t1, service.labels, c.service_labels, p + "service_label_"@, honor, name);
        lemma_labels_pass(
            t2,
            service.annotations,
            c.service_annotations,
            p + "service_annotation_"@,
            honor,
            name,
        );
        assert(name.len() > (p + "service"@).len());
        assert(same_at(t1, tags, name));
        lemma_told_between(
            tags,
            after,
            t1,
            t2,
            service.labels,
            c.service_labels,
            p + "service_label_"@,
            honor,
            name,
        );
    }
    if (p + "service_annotation_"@).is_prefix_of(name) {
        lemma_begins(p, "service_annotation_"@, name, 8);
        assert(!(p + "service_label_"@).is_prefix_of(name)) by {
            if (p + "service_label_"@).is_prefix_of(name) {
                lemma_begins(p, "service_label_"@, name, 8);
            }
        }
        lemma_labels_pass(t1, service.labels, c.service_labels, p + "service_label_"@, honor, name);
        lemma_labels_told(
            t2,
            service.annotations,
            c.service_annotations,
            p + "service_annotation_"@,
            honor,
            name,
        );
        assert(name.len() > (p + "service"@).len());
        assert(same_at(t2, tags, name));
        lemma_told_between(
            tags,
            after,
            t2,
            t3,
            service.annotations,
            c.service_annotations,
            p + "service_annotation_"@,
            honor,
            name,
        );
    }
}

/// A label name is the key character by character, with `_` in place of each dot,
/// slash and hyphen, behind one more `_` where the key begins with a digit.
pub proof fn law_label_name_follows_the_key(key: Seq<char>, i: int)
    requires
        0 <= i < key.len(),
    ensures
        ({
            let lead = if '0' <= key[0] <= '9' {
                1int
            } else {
                0int
            };
            let name = label_name(key);
            &&& name.len() == key.len() + lead
            &&& lead == 1 ==> name[0] == '_'
            &&& name[i + lead] == if key[i] == '.' || key[i] == '/' || key[i] == '-' {
                '_'
            } else {
                key[i]
            }
        }),
        label_name(Seq::empty()).len() == 0,
{
    assert(label_chars(key)[i] == label_char(key[i]));
}

} // verus!

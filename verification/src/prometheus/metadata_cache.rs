//! Metadata of pods, nodes and services, kept until a watch replaces it.
use std::sync::Arc;

use vstd::prelude::*;

use super::objects::{
    address_of_pod, node_addresses, node_of_pod, or_empty, or_no_labels, pod_address,
    pod_node, preferred_ip, preferred_ip_of_node, rows_or_empty, text_or_empty, Node, Pod, Service,
};
use crate::share::share;
use crate::table::{text_rows, TextMap};
use crate::text::{copy, join2, join3, opt_text};

verus! {

// ---------------------------------------------------------------------------
// Metadata
// ---------------------------------------------------------------------------
/// What is kept of a pod.
#[derive(Clone, Debug)]
pub struct PodMetadata {
    /// The pod's name.
    pub name: String,
    /// The namespace that it lives in.
    pub namespace: String,
    /// Its labels.
    pub labels: TextMap<String>,
    /// Its annotations.
    pub annotations: TextMap<String>,
    /// Its address.
    pub pod_ip: Option<String>,
}

/// What is kept of a node.
#[derive(Clone, Debug)]
pub struct NodeMetadata {
    /// The node's name.
    pub name: String,
    /// Its labels.
    pub labels: TextMap<String>,
    /// Its address.
    pub node_ip: Option<String>,
}

/// What is kept of a service.
#[derive(Clone, Debug)]
pub struct ServiceMetadata {
    /// The service's name.
    pub name: String,
    /// The namespace that it lives in.
    pub namespace: String,
    /// Its labels.
    pub labels: TextMap<String>,
    /// Its annotations.
    pub annotations: TextMap<String>,
}

/// A pod's metadata, read as characters.
#[verifier::ext_equal]
pub struct PodView {
    pub name: Seq<char>,
    pub namespace: Seq<char>,
    pub labels: Seq<(Seq<char>, Seq<char>)>,
    pub annotations: Seq<(Seq<char>, Seq<char>)>,
    pub pod_ip: Option<Seq<char>>,
}

/// A node's metadata, read as characters.
#[verifier::ext_equal]
pub struct NodeView {
    pub name: Seq<char>,
    pub labels: Seq<(Seq<char>, Seq<char>)>,
    pub node_ip: Option<Seq<char>>,
}

/// A service's metadata, read as characters.
#[verifier::ext_equal]
pub struct ServiceView {
    pub name: Seq<char>,
    pub namespace: Seq<char>,
    pub labels: Seq<(Seq<char>, Seq<char>)>,
    pub annotations: Seq<(Seq<char>, Seq<char>)>,
}

impl View for PodMetadata {
    type V = PodView;

    open spec fn view(&self) -> PodView {
        PodView {
            name: self.name@,
            namespace: self.namespace@,
            labels: text_rows(self.labels),
            annotations: text_rows(self.annotations),
            pod_ip: opt_text(self.pod_ip),
        }
    }
}

impl View for NodeMetadata {
    type V = NodeView;

    open spec fn view(&self) -> NodeView {
        NodeView {
            name: self.name@,
            labels: text_rows(self.labels),
            node_ip: opt_text(self.node_ip),
        }
    }
}

impl View for ServiceMetadata {
    type V = ServiceView;

    open spec fn view(&self) -> ServiceView {
        ServiceView {
            name: self.name@,
            namespace: self.namespace@,
            labels: text_rows(self.labels),
            annotations: text_rows(self.annotations),
        }
    }
}

/// What is kept of the pod `p`.
pub open spec fn pod_view(p: Pod) -> PodView {
    PodView {
        name: text_or_empty(p.metadata.name),
        namespace: text_or_empty(p.metadata.namespace),
        labels: rows_or_empty(p.metadata.labels),
        annotations: rows_or_empty(p.metadata.annotations),
        pod_ip: pod_address(p),
    }
}

/// What is kept of the service `s`.
pub open spec fn service_view(s: Service) -> ServiceView {
    ServiceView {
        name: text_or_empty(s.metadata.name),
        namespace: text_or_empty(s.metadata.namespace),
        labels: rows_or_empty(s.metadata.labels),
        annotations: rows_or_empty(s.metadata.annotations),
    }
}

/// What is kept of the node `n` under the name `name`, with the address `ip`.
pub open spec fn node_view(name: Seq<char>, n: Node, ip: Option<Seq<char>>) -> NodeView {
    NodeView { name, labels: rows_or_empty(n.metadata.labels), node_ip: ip }
}

/// What is kept of a pod.
pub fn pod_metadata(p: &Pod) -> (r: PodMetadata)
    ensures
        r@ == pod_view(*p),
{
    PodMetadata {
        name: or_empty(&p.metadata.name),
        namespace: or_empty(&p.metadata.namespace),
        labels: or_no_labels(&p.metadata.labels),
        annotations: or_no_labels(&p.metadata.annotations),
        pod_ip: address_of_pod(p),
    }
}

/// What is kept of a service.
pub fn service_metadata(s: &Service) -> (r: ServiceMetadata)
    ensures
        r@ == service_view(*s),
{
    ServiceMetadata {
        name: or_empty(&s.metadata.name),
        namespace: or_empty(&s.metadata.namespace),
        labels: or_no_labels(&s.metadata.labels),
        annotations: or_no_labels(&s.metadata.annotations),
    }
}

/// What is kept of a node.
pub fn node_metadata(name: &str, n: &Node, ip: Option<String>) -> (r: NodeMetadata)
    ensures
        r@ == node_view(name@, *n, opt_text(ip)),
{
    NodeMetadata { name: copy(name), labels: or_no_labels(&n.metadata.labels), node_ip: ip }
}

// ---------------------------------------------------------------------------
// Keys
// ---------------------------------------------------------------------------
/// The key of the object `name` in `namespace`.
pub open spec fn object_key(namespace: Seq<char>, name: Seq<char>) -> Seq<char> {
    namespace + "/"@ + name
}

/// What stands under a key.
pub open spec fn cached<T>(m: Map<Seq<char>, T>, key: Seq<char>) -> Option<T> {
    if m.contains_key(key) {
        Some(m[key])
    } else {
        None
    }
}

/// `m` without the objects of `namespace`.
pub open spec fn without_namespace<T>(
    m: Map<Seq<char>, T>,
    namespace: Seq<char>,
) -> Map<Seq<char>, T> {
    m.restrict(Set::new(|k: Seq<char>| !(namespace + "/"@).is_prefix_of(k)))
}

fn key_of(namespace: &str, name: &str) -> (r: String)
    ensures
        r@ == object_key(namespace@, name@),
{
    join3(namespace, "/", name)
}

/// Names without `/` are told apart by their keys.
pub proof fn law_keys_are_distinct(ns: Seq<char>, name: Seq<char>, ns2: Seq<char>, name2: Seq<char>)
    requires
        !ns.contains('/'),
        !ns2.contains('/'),
        object_key(ns, name) == object_key(ns2, name2),
    ensures
        ns == ns2,
        name == name2,
{
    reveal_strlit("/");
    let a = object_key(ns, name);
    let b = object_key(ns2, name2);
    assert(a[ns.len() as int] == '/');
    assert(b[ns2.len() as int] == '/');
    if ns.len() < ns2.len() {
        assert(ns2[ns.len() as int] == b[ns.len() as int]);
        assert(ns2.contains('/'));
    } else if ns2.len() < ns.len() {
        assert(ns[ns2.len() as int] == a[ns2.len() as int]);
        assert(ns.contains('/'));
    }
    assert(ns =~= a.take(ns.len() as int));
    assert(ns2 =~= b.take(ns2.len() as int));
    assert(name =~= a.skip(ns.len() as int + 1));
    assert(name2 =~= b.skip(ns2.len() as int + 1));
}

/// What was stored under a name is what the name gives back, what was removed is
/// gone, and no other name of a namespace without `/` is touched.
pub proof fn law_update_then_get<T>(
    m: Map<Seq<char>, T>,
    ns: Seq<char>,
    name: Seq<char>,
    v: T,
    ns2: Seq<char>,
    name2: Seq<char>,
)
    ensures
        cached(m.insert(object_key(ns, name), v), object_key(ns, name)) == Some(v),
        cached(m.remove(object_key(ns, name)), object_key(ns, name)) is None,
        !ns.contains('/') && !ns2.contains('/') && (ns != ns2 || name != name2) ==> {
            &&& cached(m.insert(object_key(ns, name), v), object_key(ns2, name2)) == cached(
                m,
                object_key(ns2, name2),
            )
            &&& cached(m.remove(object_key(ns, name)), object_key(ns2, name2)) == cached(
                m,
                object_key(ns2, name2),
            )
        },
{
    if !ns.contains('/') && !ns2.contains('/') && object_key(ns, name) == object_key(ns2, name2) {
        law_keys_are_distinct(ns, name, ns2, name2);
    }
}

/// Clearing a namespace takes out every object of it, and none of another one where
/// neither name holds a `/`.
pub proof fn law_clear_namespace<T>(
    m: Map<Seq<char>, T>,
    ns: Seq<char>,
    ns2: Seq<char>,
    name: Seq<char>,
)
    ensures
        cached(without_namespace(m, ns), object_key(ns, name)) is None,
        !ns.contains('/') && !ns2.contains('/') && ns != ns2 ==> cached(
            without_namespace(m, ns),
            object_key(ns2, name),
        ) == cached(m, object_key(ns2, name)),
{
    reveal_strlit("/");
    let p = ns + "/"@;
    assert(p.is_prefix_of(object_key(ns, name))) by {
        assert(object_key(ns, name).take(p.len() as int) =~= p);
    }
    let k = object_key(ns2, name);
    if !ns.contains('/') && !ns2.contains('/') && ns != ns2 && p.is_prefix_of(k) {
        let rest = k.skip(p.len() as int);
        assert(k =~= object_key(ns, rest));
        law_keys_are_distinct(ns, rest, ns2, name);
    }
}

/// That `r` is what is known under `key`, or else what was fetched, which is then kept.
pub open spec fn fetches<T>(
    before: Map<Seq<char>, T>,
    after: Map<Seq<char>, T>,
    key: Seq<char>,
    fetched: bool,
    r: Option<T>,
) -> bool {
    match cached(before, key) {
        Some(known) => r == Some(known) && after == before,
        None => if fetched {
            r is Some && after == before.insert(key, r->0)
        } else {
            r is None && after == before
        },
    }
}

// ---------------------------------------------------------------------------
// The cache
// ---------------------------------------------------------------------------
/// The metadata of pods, nodes and services by name.
#[derive(Debug)]
pub struct MetadataCache {
    pods: TextMap<Arc<PodMetadata>>,
    nodes: TextMap<Arc<NodeMetadata>>,
    services: TextMap<Arc<ServiceMetadata>>,
}

impl MetadataCache {
    /// The pods, by namespace and name.
    pub closed spec fn pods(&self) -> Map<Seq<char>, Arc<PodMetadata>> {
        self.pods@
    }

    /// The nodes, by name.
    pub closed spec fn nodes(&self) -> Map<Seq<char>, Arc<NodeMetadata>> {
        self.nodes@
    }

    /// The services, by namespace and name.
    pub closed spec fn services(&self) -> Map<Seq<char>, Arc<ServiceMetadata>> {
        self.services@
    }

    /// The cache that holds nothing.
    pub fn new() -> (r: MetadataCache)
        ensures
            r.pods() == Map::<Seq<char>, Arc<PodMetadata>>::empty(),
            r.nodes() == Map::<Seq<char>, Arc<NodeMetadata>>::empty(),
            r.services() == Map::<Seq<char>, Arc<ServiceMetadata>>::empty(),
    {
        MetadataCache { pods: TextMap::new(), nodes: TextMap::new(), services: TextMap::new() }
    }

    /// The metadata of the pod: what is cached, or else what `reply`, the answer
    /// to a request for it, tells. The answer is kept.
    pub fn get_or_fetch_pod(
        &mut self,
        namespace: &str,
        pod_name: &str,
        reply: Option<Pod>,
    ) -> (r: Option<Arc<PodMetadata>>)
        ensures
            match (cached(old(self).pods(), object_key(namespace@, pod_name@)), reply) {
                (Some(known), _) => r == Some(known) && *final(self) == *old(self),
                (None, None) => r is None && *final(self) == *old(self),
                (None, Some(found)) => r matches Some(m) && m@ == pod_view(found) && final(self).pods()
                    == old(self).pods().insert(object_key(namespace@, pod_name@), m),
            },
            fetches(
                old(self).pods(),
                final(self).pods(),
                object_key(namespace@, pod_name@),
                reply is Some,
                r,
            ),
            final(self).nodes() == old(self).nodes(),
            final(self).services() == old(self).services(),
    {
        match self.get_pod_cached(namespace, pod_name) {
            Some(known) => Some(known),
            None => match reply {
                Some(found) => {
                    let m = Arc::new(pod_metadata(&found));
                    self.update_pod(namespace, pod_name, share(&m));
                    Some(m)
                },
                None => None,
            },
        }
    }

    /// The metadata of the node: what is cached, or else what `reply`, the answer
    /// to a request for it, tells. The answer is kept.
    pub fn get_or_fetch_node(&mut self, node_name: &str, reply: Option<Node>) -> (r: Option<
        Arc<NodeMetadata>,
    >)
        ensures
            match (cached(old(self).nodes(), node_name@), reply) {
                (Some(known), _) => r == Some(known) && *final(self) == *old(self),
                (None, None) => r is None && *final(self) == *old(self),
                (None, Some(found)) => r matches Some(m) && m@ == node_view(
                    node_name@,
                    found,
                    preferred_ip(node_addresses(found)),
                ) && final(self).nodes()
                    == old(self).nodes().insert(node_name@, m),
            },
            fetches(old(self).nodes(), final(self).nodes(), node_name@, reply is Some, r),
            final(self).pods() == old(self).pods(),
            final(self).services() == old(self).services(),
    {
        match self.get_node_cached(node_name) {
            Some(known) => Some(known),
            None => match reply {
                Some(found) => {
                    let m = Arc::new(node_metadata(node_name, &found, preferred_ip_of_node(&found)));
                    self.update_node(node_name, share(&m));
                    Some(m)
                },
                None => None,
            },
        }
    }

    /// The metadata of the service: what is cached, or else what `reply`, the answer
    /// to a request for it, tells. The answer is kept.
    pub fn get_or_fetch_service(
        &mut self,
        namespace: &str,
        service_name: &str,
        reply: Option<Service>,
    ) -> (r: Option<Arc<ServiceMetadata>>)
        ensures
            match (cached(old(self).services(), object_key(namespace@, service_name@)), reply) {
                (Some(known), _) => r == Some(known) && *final(self) == *old(self),
                (None, None) => r is None && *final(self) == *old(self),
                (None, Some(found)) => r matches Some(m) && m@ == service_view(found) && final(self).services()
                    == old(self).services().insert(object_key(namespace@, service_name@), m),
            },
            fetches(
                old(self).services(),
                final(self).services(),
                object_key(namespace@, service_name@),
                reply is Some,
                r,
            ),
            final(self).pods() == old(self).pods(),
            final(self).nodes() == old(self).nodes(),
    {
        match self.get_service_cached(namespace, service_name) {
            Some(known) => Some(known),
            None => match reply {
                Some(found) => {
                    let m = Arc::new(service_metadata(&found));
                    self.update_service(namespace, service_name, share(&m));
                    Some(m)
                },
                None => None,
            },
        }
    }

    /// The cached metadata of the pod.
    pub fn get_pod_cached(&self, namespace: &str, pod_name: &str) -> (r: Option<Arc<PodMetadata>>)
        ensures
            r == cached(self.pods(), object_key(namespace@, pod_name@)),
    {
        match self.pods.get(key_of(namespace, pod_name).as_str()) {
            Some(m) => Some(share(m)),
            None => None,
        }
    }

    /// The cached metadata of the node.
    pub fn get_node_cached(&self, node_name: &str) -> (r: Option<Arc<NodeMetadata>>)
        ensures
            r == cached(self.nodes(), node_name@),
    {
        match self.nodes.get(node_name) {
            Some(m) => Some(share(m)),
            None => None,
        }
    }

    /// The cached metadata of the service.
    pub fn get_service_cached(&self, namespace: &str, service_name: &str) -> (r: Option<
        Arc<ServiceMetadata>,
    >)
        ensures
            r == cached(self.services(), object_key(namespace@, service_name@)),
    {
        match self.services.get(key_of(namespace, service_name).as_str()) {
            Some(m) => Some(share(m)),
            None => None,
        }
    }

    /// Keeps the metadata of the pod, in place of what was kept of it.
    pub fn update_pod(&mut self, namespace: &str, pod_name: &str, metadata: Arc<PodMetadata>)
        ensures
            final(self).pods() == old(self).pods().insert(
                object_key(namespace@, pod_name@),
                metadata,
            ),
            final(self).nodes() == old(self).nodes(),
            final(self).services() == old(self).services(),
    {
        let _ = self.pods.insert(key_of(namespace, pod_name), metadata);
    }

    /// Keeps the metadata of the node, in place of what was kept of it.
    pub fn update_node(&mut self, node_name: &str, metadata: Arc<NodeMetadata>)
        ensures
            final(self).nodes() == old(self).nodes().insert(node_name@, metadata),
            final(self).pods() == old(self).pods(),
            final(self).services() == old(self).services(),
    {
        let _ = self.nodes.insert(copy(node_name), metadata);
    }

    /// Keeps the metadata of the service, in place of what was kept of it.
    pub fn update_service(
        &mut self,
        namespace: &str,
        service_name: &str,
        metadata: Arc<ServiceMetadata>,
    )
        ensures
            final(self).services() == old(self).services().insert(
                object_key(namespace@, service_name@),
                metadata,
            ),
            final(self).pods() == old(self).pods(),
            final(self).nodes() == old(self).nodes(),
    {
        let _ = self.services.insert(key_of(namespace, service_name), metadata);
    }

    /// Forgets the pod.
    pub fn remove_pod(&mut self, namespace: &str, pod_name: &str)
        ensures
            final(self).pods() == old(self).pods().remove(object_key(namespace@, pod_name@)),
            final(self).nodes() == old(self).nodes(),
            final(self).services() == old(self).services(),
    {
        let _ = self.pods.remove(key_of(namespace, pod_name).as_str());
    }

    /// Forgets every pod of the namespace.
    pub fn clear_namespace_pods(&mut self, namespace: &str)
        ensures
            final(self).pods() == without_namespace(old(self).pods(), namespace@),
            final(self).nodes() == old(self).nodes(),
            final(self).services() == old(self).services(),
    {
        self.pods.remove_prefixed(join2(namespace, "/").as_str());
    }

    /// Forgets the service.
    pub fn remove_service(&mut self, namespace: &str, service_name: &str)
        ensures
            final(self).services() == old(self).services().remove(
                object_key(namespace@, service_name@),
            ),
            final(self).pods() == old(self).pods(),
            final(self).nodes() == old(self).nodes(),
    {
        let _ = self.services.remove(key_of(namespace, service_name).as_str());
    }

    /// Forgets every service of the namespace.
    pub fn clear_namespace_services(&mut self, namespace: &str)
        ensures
            final(self).services() == without_namespace(old(self).services(), namespace@),
            final(self).pods() == old(self).pods(),
            final(self).nodes() == old(self).nodes(),
    {
        self.services.remove_prefixed(join2(namespace, "/").as_str());
    }

    /// Forgets the node.
    pub fn remove_node(&mut self, node_name: &str)
        ensures
            final(self).nodes() == old(self).nodes().remove(node_name@),
            final(self).pods() == old(self).pods(),
            final(self).services() == old(self).services(),
    {
        let _ = self.nodes.remove(node_name);
    }

    /// Forgets every node.
    pub fn clear_all_nodes(&mut self)
        ensures
            final(self).nodes() == Map::<Seq<char>, Arc<NodeMetadata>>::empty(),
            final(self).pods() == old(self).pods(),
            final(self).services() == old(self).services(),
    {
        self.nodes.clear();
    }
}

/// The name of the node that a pod runs on, as the answer to a request for the
/// pod tells it.
pub fn get_node_name_from_pod<E>(reply: Result<Pod, E>) -> (r: Result<Option<String>, E>)
    ensures
        match reply {
            Ok(p) => r matches Ok(name) && opt_text(name) == pod_node(p),
            Err(e) => r matches Err(f) && f == e,
        },
{
    match reply {
        Ok(p) => Ok(node_of_pod(&p)),
        Err(e) => Err(e),
    }
}

/// What is kept of a pod is its name, its namespace, its labels and its annotations,
/// empty where they are absent, and the address that was observed of it.
pub proof fn law_pod_is_kept_as_it_is(p: Pod)
    ensures
        ({
            let v = pod_view(p);
            &&& p.metadata.name matches Some(s) ==> v.name == s@
            &&& p.metadata.name is None ==> v.name.len() == 0
            &&& p.metadata.namespace matches Some(s) ==> v.namespace == s@
            &&& p.metadata.namespace is None ==> v.namespace.len() == 0
            &&& p.metadata.labels matches Some(m) ==> v.labels == text_rows(m)
            &&& p.metadata.labels is None ==> v.labels.len() == 0
            &&& p.metadata.annotations matches Some(m) ==> v.annotations == text_rows(m)
            &&& p.metadata.annotations is None ==> v.annotations.len() == 0
            &&& match p.status {
                Some(s) => match s.pod_ip {
                    Some(ip) => v.pod_ip == Some(ip@),
                    None => v.pod_ip is None,
                },
                None => v.pod_ip is None,
            }
            &&& match p.spec {
                Some(s) => match s.node_name {
                    Some(n) => pod_node(p) == Some(n@),
                    None => pod_node(p) is None,
                },
                None => pod_node(p) is None,
            }
        }),
{
}

/// What is kept of a service is its name, its namespace, its labels and its
/// annotations, empty where they are absent.
pub proof fn law_service_is_kept_as_it_is(s: Service)
    ensures
        ({
            let v = service_view(s);
            &&& s.metadata.name matches Some(t) ==> v.name == t@
            &&& s.metadata.name is None ==> v.name.len() == 0
            &&& s.metadata.namespace matches Some(t) ==> v.namespace == t@
            &&& s.metadata.namespace is None ==> v.namespace.len() == 0
            &&& s.metadata.labels matches Some(m) ==> v.labels == text_rows(m)
            &&& s.metadata.labels is None ==> v.labels.len() == 0
            &&& s.metadata.annotations matches Some(m) ==> v.annotations == text_rows(m)
            &&& s.metadata.annotations is None ==> v.annotations.len() == 0
        }),
{
}

/// What is kept of a node is the name that it was asked by, its labels and the address
/// that is given for it; its addresses are those that were observed.
pub proof fn law_node_is_kept_as_it_is(name: Seq<char>, n: Node, ip: Option<Seq<char>>)
    ensures
        ({
            let v = node_view(name, n, ip);
            &&& v.name == name
            &&& v.node_ip == ip
            &&& n.metadata.labels matches Some(m) ==> v.labels == text_rows(m)
            &&& n.metadata.labels is None ==> v.labels.len() == 0
            &&& match n.status {
                Some(s) => match s.addresses {
                    Some(a) => node_addresses(n) == a@,
                    None => node_addresses(n).len() == 0,
                },
                None => node_addresses(n).len() == 0,
            }
        }),
{
}

/// The key of an object is its namespace, a `/` and its name.
pub proof fn law_key_is_namespace_and_name(namespace: Seq<char>, name: Seq<char>)
    ensures
        ({
            let k = object_key(namespace, name);
            &&& k.len() == namespace.len() + 1 + name.len()
            &&& k.take(namespace.len() as int) == namespace
            &&& k[namespace.len() as int] == '/'
            &&& k.skip(namespace.len() as int + 1) == name
        }),
{
    reveal_strlit("/");
    let k = object_key(namespace, name);
    assert(k.take(namespace.len() as int) =~= namespace);
    assert(k.skip(namespace.len() as int + 1) =~= name);
}

/// What is known is not fetched again, what is fetched is known from then on, and no
/// other name is touched.
pub proof fn law_fetched_is_known_from_then_on<T>(
    before: Map<Seq<char>, T>,
    after: Map<Seq<char>, T>,
    key: Seq<char>,
    fetched: bool,
    r: Option<T>,
    other: Seq<char>,
)
    requires
        fetches(before, after, key, fetched, r),
    ensures
        before.contains_key(key) ==> r == Some(before[key]) && after == before,
        !before.contains_key(key) ==> (r is Some <==> fetched),
        r is Some <==> after.contains_key(key),
        r is Some ==> after[key] == r->0,
        other != key ==> (after.contains_key(other) <==> before.contains_key(other)),
        other != key && before.contains_key(other) ==> after[other] == before[other],
{
}

/// What is kept is read field by field.
pub proof fn law_kept_fields_are_read(p: PodMetadata, n: NodeMetadata, s: ServiceMetadata)
    ensures
        p@.name == p.name@ && p@.namespace == p.namespace@ && p@.pod_ip == opt_text(p.pod_ip),
        p@.labels == text_rows(p.labels) && p@.annotations == text_rows(p.annotations),
        n@.name == n.name@ && n@.node_ip == opt_text(n.node_ip) && n@.labels == text_rows(n.labels),
        s@.name == s.name@ && s@.namespace == s.namespace@,
        s@.labels == text_rows(s.labels) && s@.annotations == text_rows(s.annotations),
{
}

} // verus!

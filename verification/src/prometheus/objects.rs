//! The parts of Kubernetes objects that discovery and enrichment read.
use vstd::prelude::*;

use crate::table::{text_rows, TextMap};
use crate::text::{copy, copy_opt, opt_text, same};

verus! {

/// The metadata that every object carries.
#[derive(Clone, Debug)]
pub struct ObjectMeta {
    /// The object's name.
    pub name: Option<String>,
    /// The namespace that it lives in.
    pub namespace: Option<String>,
    /// Its labels.
    pub labels: Option<TextMap<String>>,
    /// Its annotations.
    pub annotations: Option<TextMap<String>>,
}

/// What was asked of a pod.
#[derive(Clone, Debug)]
pub struct PodSpec {
    /// The node that the pod runs on.
    pub node_name: Option<String>,
}

/// What was observed of a pod.
#[derive(Clone, Debug)]
pub struct PodStatus {
    /// The pod's address.
    pub pod_ip: Option<String>,
}

/// A pod.
#[derive(Clone, Debug)]
pub struct Pod {
    /// Its metadata.
    pub metadata: ObjectMeta,
    /// What was asked of it.
    pub spec: Option<PodSpec>,
    /// What was observed of it.
    pub status: Option<PodStatus>,
}

/// A service.
#[derive(Clone, Debug)]
pub struct Service {
    /// Its metadata.
    pub metadata: ObjectMeta,
}

/// One address of a node.
#[derive(Clone, Debug)]
pub struct NodeAddress {
    /// The kind of the address, such as `InternalIP`.
    pub type_: String,
    /// The address.
    pub address: String,
}

/// What was observed of a node.
#[derive(Clone, Debug)]
pub struct NodeStatus {
    /// The node's addresses.
    pub addresses: Option<Vec<NodeAddress>>,
}

/// A node.
#[derive(Clone, Debug)]
pub struct Node {
    /// Its metadata.
    pub metadata: ObjectMeta,
    /// What was observed of it.
    pub status: Option<NodeStatus>,
}

/// A reference to another object.
#[derive(Clone, Debug)]
pub struct ObjectReference {
    /// The kind of the object, such as `Pod`.
    pub kind: Option<String>,
    /// The object's name.
    pub name: Option<String>,
}

/// One address behind a service.
#[derive(Clone, Debug)]
pub struct EndpointAddress {
    /// The address.
    pub ip: String,
    /// The object that answers there.
    pub target_ref: Option<ObjectReference>,
}

/// One port behind a service.
#[derive(Clone, Debug)]
pub struct EndpointPort {
    /// The port's name.
    pub name: Option<String>,
    /// The port's number.
    pub port: i32,
}

/// Addresses that share their ports.
#[derive(Clone, Debug)]
pub struct EndpointSubset {
    /// The addresses.
    pub addresses: Option<Vec<EndpointAddress>>,
    /// The ports.
    pub ports: Option<Vec<EndpointPort>>,
}

/// What stands behind a service.
#[derive(Clone, Debug)]
pub struct Endpoints {
    /// Its metadata.
    pub metadata: ObjectMeta,
    /// The addresses and ports.
    pub subsets: Option<Vec<EndpointSubset>>,
}

// ---------------------------------------------------------------------------
// What may be absent
// ---------------------------------------------------------------------------
/// The characters of an optional string, none where it is absent.
pub open spec fn text_or_empty(s: Option<String>) -> Seq<char> {
    match s {
        Some(t) => t@,
        None => Seq::empty(),
    }
}

/// The rows of an optional map, none where it is absent.
pub open spec fn rows_or_empty(m: Option<TextMap<String>>) -> Seq<(Seq<char>, Seq<char>)> {
    match m {
        Some(t) => text_rows(t),
        None => Seq::empty(),
    }
}

/// The string, or the empty string where it is absent.
pub fn or_empty(s: &Option<String>) -> (r: String)
    ensures
        r@ == text_or_empty(*s),
{
    match s {
        Some(t) => copy(t.as_str()),
        None => String::new(),
    }
}

/// The map, or the empty map where it is absent.
pub fn or_no_labels(m: &Option<TextMap<String>>) -> (r: TextMap<String>)
    ensures
        text_rows(r) == rows_or_empty(*m),
{
    match m {
        Some(t) => t.clone(),
        None => {
            let r = TextMap::new();
            assert(text_rows(r) =~= Seq::<(Seq<char>, Seq<char>)>::empty());
            r
        },
    }
}

// ---------------------------------------------------------------------------
// Addresses
// ---------------------------------------------------------------------------
/// The address of a pod, where one was observed.
pub open spec fn pod_address(p: Pod) -> Option<Seq<char>> {
    match p.status {
        Some(s) => opt_text(s.pod_ip),
        None => None,
    }
}

/// The name of the node that a pod runs on, where it is known.
pub open spec fn pod_node(p: Pod) -> Option<Seq<char>> {
    match p.spec {
        Some(s) => opt_text(s.node_name),
        None => None,
    }
}

/// The addresses of a node, none where they are absent.
pub open spec fn node_addresses(n: Node) -> Seq<NodeAddress> {
    match n.status {
        Some(s) => match s.addresses {
            Some(a) => a@,
            None => Seq::empty(),
        },
        None => Seq::empty(),
    }
}

/// The first address of kind `InternalIP`.
pub open spec fn internal_ip(addresses: Seq<NodeAddress>) -> Option<Seq<char>>
    decreases addresses.len(),
{
    if addresses.len() == 0 {
        None
    } else if addresses.first().type_@ == "InternalIP"@ {
        Some(addresses.first().address@)
    } else {
        internal_ip(addresses.drop_first())
    }
}

/// The first address of kind `InternalIP`, or the first address of all.
pub open spec fn preferred_ip(addresses: Seq<NodeAddress>) -> Option<Seq<char>> {
    match internal_ip(addresses) {
        Some(ip) => Some(ip),
        None => if addresses.len() > 0 {
            Some(addresses.first().address@)
        } else {
            None
        },
    }
}

/// The pod's address.
pub fn address_of_pod(p: &Pod) -> (r: Option<String>)
    ensures
        opt_text(r) == pod_address(*p),
{
    match &p.status {
        Some(s) => copy_opt(&s.pod_ip),
        None => None,
    }
}

/// The name of the node that the pod runs on.
pub fn node_of_pod(p: &Pod) -> (r: Option<String>)
    ensures
        opt_text(r) == pod_node(*p),
{
    match &p.spec {
        Some(s) => copy_opt(&s.node_name),
        None => None,
    }
}

fn find_internal(addresses: &Vec<NodeAddress>) -> (r: Option<String>)
    ensures
        opt_text(r) == internal_ip(addresses@),
{
    let n: usize = addresses.len();
    let mut i: usize = 0;
    assert(addresses@.skip(0) =~= addresses@);
    while i < n
        invariant
            n == addresses@.len(),
            i <= n,
            internal_ip(addresses@) == internal_ip(addresses@.skip(i as int)),
        decreases n - i,
    {
        let ghost rest = addresses@.skip(i as int);
        assert(rest.first() == addresses@[i as int]);
        assert(rest.drop_first() =~= addresses@.skip(i + 1));
        if same(addresses[i].type_.as_str(), "InternalIP") {
            return Some(copy(addresses[i].address.as_str()));
        }
        i = i + 1;
    }
    None
}

/// The node's first address of kind `InternalIP`.
pub fn internal_ip_of_node(n: &Node) -> (r: Option<String>)
    ensures
        opt_text(r) == internal_ip(node_addresses(*n)),
{
    match &n.status {
        Some(s) => match &s.addresses {
            Some(a) => find_internal(a),
            None => None,
        },
        None => None,
    }
}

/// The node's first address of kind `InternalIP`, or its first address of all.
pub fn preferred_ip_of_node(n: &Node) -> (r: Option<String>)
    ensures
        opt_text(r) == preferred_ip(node_addresses(*n)),
{
    match &n.status {
        Some(s) => match &s.addresses {
            Some(a) => match find_internal(a) {
                Some(ip) => Some(ip),
                None => if a.len() > 0 {
                    Some(copy(a[0].address.as_str()))
                } else {
                    None
                },
            },
            None => None,
        },
        None => None,
    }
}

// ---------------------------------------------------------------------------
// Finding an object
// ---------------------------------------------------------------------------
/// An object with a name and a namespace.
pub trait Object {
    /// The object's metadata.
    spec fn meta(&self) -> ObjectMeta;

    /// The object's metadata.
    fn object_meta(&self) -> (r: &ObjectMeta)
        ensures
            *r == self.meta(),
    ;
}

impl Object for Pod {
    open spec fn meta(&self) -> ObjectMeta {
        self.metadata
    }

    fn object_meta(&self) -> &ObjectMeta {
        &self.metadata
    }
}

impl Object for Service {
    open spec fn meta(&self) -> ObjectMeta {
        self.metadata
    }

    fn object_meta(&self) -> &ObjectMeta {
        &self.metadata
    }
}

impl Object for Node {
    open spec fn meta(&self) -> ObjectMeta {
        self.metadata
    }

    fn object_meta(&self) -> &ObjectMeta {
        &self.metadata
    }
}

/// The characters of an optional string slice.
pub open spec fn opt_str(s: Option<&str>) -> Option<Seq<char>> {
    match s {
        Some(t) => Some(t@),
        None => None,
    }
}

/// The first object of that name and namespace.
pub open spec fn first_named<T: Object>(
    list: Seq<T>,
    name: Seq<char>,
    namespace: Option<Seq<char>>,
) -> Option<T>
    decreases list.len(),
{
    if list.len() == 0 {
        None
    } else if opt_text(list.first().meta().name) == Some(name) && opt_text(
        list.first().meta().namespace,
    ) == namespace {
        Some(list.first())
    } else {
        first_named(list.drop_first(), name, namespace)
    }
}

/// The object of that name and namespace, or else the one of that name that
/// belongs to no namespace.
pub open spec fn stored<T: Object>(
    list: Seq<T>,
    name: Seq<char>,
    namespace: Option<Seq<char>>,
) -> Option<T> {
    match first_named(list, name, namespace) {
        Some(x) => Some(x),
        None => first_named(list, name, None),
    }
}

fn find_named<'a, T: Object>(list: &'a Vec<T>, name: &str, namespace: Option<&str>) -> (r: Option<
    &'a T,
>)
    ensures
        match r {
            Some(x) => first_named(list@, name@, opt_str(namespace)) == Some(*x),
            None => first_named(list@, name@, opt_str(namespace)) is None,
        },
{
    let n: usize = list.len();
    let mut i: usize = 0;
    let ghost ns = opt_str(namespace);
    assert(list@.skip(0) =~= list@);
    while i < n
        invariant
            n == list@.len(),
            i <= n,
            ns == opt_str(namespace),
            first_named(list@, name@, ns) == first_named(list@.skip(i as int), name@, ns),
        decreases n - i,
    {
        let ghost rest = list@.skip(i as int);
        assert(rest.first() == list@[i as int]);
        assert(rest.drop_first() =~= list@.skip(i + 1));
        let meta = list[i].object_meta();
        let name_fits = match &meta.name {
            Some(s) => same(s.as_str(), name),
            None => false,
        };
        let namespace_fits = match (&meta.namespace, namespace) {
            (Some(a), Some(b)) => same(a.as_str(), b),
            (None, None) => true,
            _ => false,
        };
        if name_fits && namespace_fits {
            return Some(&list[i]);
        }
        i = i + 1;
    }
    None
}

/// The object of that name and namespace, or else the one of that name that
/// belongs to no namespace.
pub fn find_stored<'a, T: Object>(
    list: &'a Vec<T>,
    name: &str,
    namespace: Option<&str>,
) -> (r: Option<&'a T>)
    ensures
        match r {
            Some(x) => stored(list@, name@, opt_str(namespace)) == Some(*x),
            None => stored(list@, name@, opt_str(namespace)) is None,
        },
{
    match find_named(list, name, namespace) {
        Some(x) => Some(x),
        None => find_named(list, name, None),
    }
}

// ---------------------------------------------------------------------------
// What is found
// ---------------------------------------------------------------------------
/// The first address of kind `InternalIP` is the internal one, wherever it stands, and
/// it is preferred; where there is none, the first address of all is taken.
pub proof fn law_internal_address_is_preferred(addresses: Seq<NodeAddress>, i: int)
    ensures
        0 <= i < addresses.len() && addresses[i].type_@ == "InternalIP"@ && (forall|j: int|
            0 <= j < i ==> (#[trigger] addresses[j]).type_@ != "InternalIP"@) ==> {
            &&& internal_ip(addresses) == Some(addresses[i].address@)
            &&& preferred_ip(addresses) == Some(addresses[i].address@)
        },
        (forall|j: int|
            0 <= j < addresses.len() ==> (#[trigger] addresses[j]).type_@ != "InternalIP"@) ==> {
            &&& internal_ip(addresses) is None
            &&& addresses.len() > 0 ==> preferred_ip(addresses) == Some(addresses[0].address@)
            &&& addresses.len() == 0 ==> preferred_ip(addresses) is None
        },
    decreases addresses.len(),
{
    if addresses.len() > 0 {
        let rest = addresses.drop_first();
        assert(forall|j: int| 0 <= j < rest.len() ==> rest[j] == addresses[j + 1]);
        assert(addresses.first() == addresses[0]);
        law_internal_address_is_preferred(rest, i - 1);
        if 0 < i < addresses.len() && (forall|j: int|
            0 <= j < i ==> (#[trigger] addresses[j]).type_@ != "InternalIP"@) {
            assert(forall|j: int|
                0 <= j < i - 1 ==> (#[trigger] rest[j]).type_@ != "InternalIP"@);
        }
    }
}

/// The object has that name and that namespace.
pub open spec fn is_named<T: Object>(x: T, name: Seq<char>, namespace: Option<Seq<char>>) -> bool {
    &&& x.meta().name matches Some(n) && n@ == name
    &&& match (x.meta().namespace, namespace) {
        (Some(a), Some(b)) => a@ == b,
        (None, None) => true,
        _ => false,
    }
}

proof fn lemma_first_named<T: Object>(
    list: Seq<T>,
    name: Seq<char>,
    namespace: Option<Seq<char>>,
    i: int,
)
    ensures
        0 <= i < list.len() && is_named(list[i], name, namespace) && (forall|j: int|
            0 <= j < i ==> !is_named(#[trigger] list[j], name, namespace)) ==> first_named(
            list,
            name,
            namespace,
        ) == Some(list[i]),
        (forall|j: int| 0 <= j < list.len() ==> !is_named(#[trigger] list[j], name, namespace))
            ==> first_named(list, name, namespace) is None,
    decreases list.len(),
{
    if list.len() > 0 {
        let rest = list.drop_first();
        assert(forall|j: int| 0 <= j < rest.len() ==> rest[j] == list[j + 1]);
        assert(list.first() == list[0]);
        lemma_first_named(rest, name, namespace, i - 1);
        if 0 < i < list.len() && (forall|j: int|
            0 <= j < i ==> !is_named(#[trigger] list[j], name, namespace)) {
            assert(forall|j: int|
                0 <= j < i - 1 ==> !is_named(#[trigger] rest[j], name, namespace));
        }
    }
}

/// The object that is found is the first of that name and namespace; where there is
/// none, the first of that name without a namespace; and else none.
pub proof fn law_object_is_found_by_name<T: Object>(
    list: Seq<T>,
    name: Seq<char>,
    namespace: Option<Seq<char>>,
    i: int,
)
    ensures
        0 <= i < list.len() && is_named(list[i], name, namespace) && (forall|j: int|
            0 <= j < i ==> !is_named(#[trigger] list[j], name, namespace)) ==> stored(
            list,
            name,
            namespace,
        ) == Some(list[i]),
        (forall|j: int| 0 <= j < list.len() ==> !is_named(#[trigger] list[j], name, namespace))
            && 0 <= i < list.len() && is_named(list[i], name, None) && (forall|j: int|
            0 <= j < i ==> !is_named(#[trigger] list[j], name, None)) ==> stored(
            list,
            name,
            namespace,
        ) == Some(list[i]),
        (forall|j: int|
            0 <= j < list.len() ==> !is_named(#[trigger] list[j], name, namespace) && !is_named(
                list[j],
                name,
                None,
            )) ==> stored(list, name, namespace) is None,
{
    lemma_first_named(list, name, namespace, i);
    lemma_first_named(list, name, None, i);
}

} // verus!

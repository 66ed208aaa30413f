//! Watches that the users of a namespace share.
//!
//! The first user of a namespace starts its watches and the last one stops them.
//! What the watches tell goes into one cache for all.
use std::sync::Arc;

use vstd::prelude::*;

use super::metadata_cache::{
    cached, node_metadata, node_view, object_key, pod_metadata, pod_view, service_metadata,
    service_view, MetadataCache, NodeMetadata, PodMetadata, ServiceMetadata,
};
use super::objects::{
    node_addresses, or_empty, preferred_ip, preferred_ip_of_node, text_or_empty, Node, Pod,
    Service,
};
use crate::table::TextMap;
use crate::text::{copy, same_opt};

verus! {

// ---------------------------------------------------------------------------
// Counting users
// ---------------------------------------------------------------------------
/// What a change in the number of users asks for.
#[derive(Clone, Copy, Debug, PartialEq, Eq, Structural)]
pub enum WatchAction {
    /// The watches are started.
    Start,
    /// The watches are stopped.
    Stop,
    /// Nothing is done.
    Keep,
}

/// The users of each namespace after one more came.
pub open spec fn one_more(users: Map<Seq<char>, usize>, ns: Seq<char>) -> Map<Seq<char>, usize> {
    if users.contains_key(ns) {
        users.insert(ns, (users[ns] + 1) as usize)
    } else {
        users.insert(ns, 1)
    }
}

/// The users of each namespace after one left.
pub open spec fn one_less(users: Map<Seq<char>, usize>, ns: Seq<char>) -> Map<Seq<char>, usize> {
    if !users.contains_key(ns) {
        users
    } else if users[ns] == 1 {
        users.remove(ns)
    } else {
        users.insert(ns, (users[ns] - 1) as usize)
    }
}

/// A namespace that has no users does not occur.
pub open spec fn all_used(users: Map<Seq<char>, usize>) -> bool {
    forall|ns: Seq<char>| #[trigger] users.contains_key(ns) ==> users[ns] > 0
}

/// Counts the users of namespaces and of nodes, and holds what the watches told.
#[derive(Debug)]
pub struct NamespaceWatchManager {
    metadata_cache: MetadataCache,
    namespace_watches: TextMap<usize>,
    node_watch: Option<usize>,
}

impl NamespaceWatchManager {
    /// What the watches told.
    pub closed spec fn cache(&self) -> MetadataCache {
        self.metadata_cache
    }

    /// The users of each namespace.
    pub closed spec fn users(&self) -> Map<Seq<char>, usize> {
        self.namespace_watches@
    }

    /// The users of nodes, where there are any.
    pub closed spec fn node_users(&self) -> Option<usize> {
        self.node_watch
    }

    /// Whatever is counted has users.
    pub open spec fn well_formed(&self) -> bool {
        &&& all_used(self.users())
        &&& self.node_users() matches Some(n) ==> n > 0
    }

    /// No users, and nothing told.
    pub fn new() -> (r: NamespaceWatchManager)
        ensures
            r.well_formed(),
            r.users() == Map::<Seq<char>, usize>::empty(),
            r.node_users() is None,
            r.cache().pods() == Map::<Seq<char>, Arc<PodMetadata>>::empty(),
            r.cache().nodes() == Map::<Seq<char>, Arc<NodeMetadata>>::empty(),
            r.cache().services() == Map::<Seq<char>, Arc<ServiceMetadata>>::empty(),
    {
        NamespaceWatchManager {
            metadata_cache: MetadataCache::new(),
            namespace_watches: TextMap::new(),
            node_watch: None,
        }
    }

    /// What the watches told.
    pub fn get_cache(&self) -> (r: &MetadataCache)
        ensures
            *r == self.cache(),
    {
        &self.metadata_cache
    }

    /// How many users the namespace has.
    pub fn namespace_users(&self, namespace: &str) -> (r: usize)
        ensures
            r == if self.users().contains_key(namespace@) {
                self.users()[namespace@]
            } else {
                0
            },
            r == count_of(cached(self.users(), namespace@)),
    {
        match self.namespace_watches.get(namespace) {
            Some(n) => *n,
            None => 0,
        }
    }

    /// How many users the nodes have.
    pub fn node_watch_users(&self) -> (r: usize)
        ensures
            r == (match self.node_users() {
                Some(n) => n,
                None => 0,
            }),
            r == count_of(self.node_users()),
    {
        match self.node_watch {
            Some(n) => n,
            None => 0,
        }
    }

    /// One more user of the namespace. The first one starts the watches of its pods
    /// and services.
    pub fn register_namespace(&mut self, namespace: &str) -> (r: WatchAction)
        requires
            old(self).well_formed(),
            old(self).users().contains_key(namespace@) ==> old(self).users()[namespace@]
                < usize::MAX,
        ensures
            final(self).well_formed(),
            final(self).users() == one_more(old(self).users(), namespace@),
            final(self).node_users() == old(self).node_users(),
            final(self).cache() == old(self).cache(),
            r == action_on_more(old(self).users(), namespace@),
    {
        match self.namespace_watches.get(namespace) {
            Some(n) => {
                let more: usize = *n + 1;
                let _ = self.namespace_watches.insert(copy(namespace), more);
                WatchAction::Keep
            },
            None => {
                let _ = self.namespace_watches.insert(copy(namespace), 1);
                WatchAction::Start
            },
        }
    }

    /// One user of the namespace less. The last one stops its watches.
    pub fn unregister_namespace(&mut self, namespace: &str) -> (r: WatchAction)
        requires
            old(self).well_formed(),
        ensures
            final(self).well_formed(),
            final(self).users() == one_less(old(self).users(), namespace@),
            final(self).node_users() == old(self).node_users(),
            final(self).cache() == old(self).cache(),
            r == action_on_less(old(self).users(), namespace@),
    {
        match self.namespace_watches.get(namespace) {
            Some(n) => {
                let left: usize = *n - 1;
                if left == 0 {
                    let _ = self.namespace_watches.remove(namespace);
                    WatchAction::Stop
                } else {
                    let _ = self.namespace_watches.insert(copy(namespace), left);
                    WatchAction::Keep
                }
            },
            None => WatchAction::Keep,
        }
    }

    /// One more user of nodes. The first one starts the watch.
    pub fn register_node_watch(&mut self) -> (r: WatchAction)
        requires
            old(self).well_formed(),
            old(self).node_users() matches Some(n) ==> n < usize::MAX,
        ensures
            final(self).well_formed(),
            final(self).users() == old(self).users(),
            final(self).cache() == old(self).cache(),
            match old(self).node_users() {
                Some(n) => r is Keep && final(self).node_users() == Some((n + 1) as usize),
                None => r is Start && final(self).node_users() == Some(1usize),
            },
            (final(self).node_users(), r) == one_more_of_nodes(old(self).node_users()),
    {
        match self.node_watch {
            Some(n) => {
                self.node_watch = Some(n + 1);
                WatchAction::Keep
            },
            None => {
                self.node_watch = Some(1);
                WatchAction::Start
            },
        }
    }

    /// One user of nodes less. The last one stops the watch.
    pub fn unregister_node_watch(&mut self) -> (r: WatchAction)
        requires
            old(self).well_formed(),
        ensures
            final(self).well_formed(),
            final(self).users() == old(self).users(),
            final(self).cache() == old(self).cache(),
            match old(self).node_users() {
                Some(n) => if n == 1 {
                    r is Stop && final(self).node_users() is None
                } else {
                    r is Keep && final(self).node_users() == Some((n - 1) as usize)
                },
                None => r is Keep && final(self).node_users() is None,
            },
            (final(self).node_users(), r) == one_less_of_nodes(old(self).node_users()),
    {
        match self.node_watch {
            Some(n) => if n == 1 {
                self.node_watch = None;
                WatchAction::Stop
            } else {
                self.node_watch = Some(n - 1);
                WatchAction::Keep
            },
            None => WatchAction::Keep,
        }
    }

    /// Takes in what the watch of the namespace's pods told.
    pub fn apply_pod_event(&mut self, namespace: &str, event: WatchEvent<Pod>)
        ensures
            final(self).users() == old(self).users(),
            final(self).node_users() == old(self).node_users(),
            pods_follow(
                old(self).cache().pods(),
                final(self).cache().pods(),
                namespace@,
                event,
            ),
            final(self).cache().nodes() == old(self).cache().nodes(),
            final(self).cache().services() == old(self).cache().services(),
    {
        match event {
            WatchEvent::Apply(pod) | WatchEvent::InitApply(pod) => {
                let name = or_empty(&pod.metadata.name);
                let found = pod_metadata(&pod);
                let news = match self.metadata_cache.get_pod_cached(namespace, name.as_str()) {
                    Some(known) => !known.labels.same_as(&found.labels)
                        || !known.annotations.same_as(&found.annotations) || !same_opt(
                        &known.pod_ip,
                        &found.pod_ip,
                    ),
                    None => true,
                };
                if news {
                    self.metadata_cache.update_pod(namespace, name.as_str(), Arc::new(found));
                }
            },
            WatchEvent::Delete(pod) => match &pod.metadata.name {
                Some(name) => self.metadata_cache.remove_pod(namespace, name.as_str()),
                None => {},
            },
            _ => {},
        }
    }

    /// Takes in what the watch of the namespace's services told.
    pub fn apply_service_event(&mut self, namespace: &str, event: WatchEvent<Service>)
        ensures
            final(self).users() == old(self).users(),
            final(self).node_users() == old(self).node_users(),
            services_follow(
                old(self).cache().services(),
                final(self).cache().services(),
                namespace@,
                event,
            ),
            final(self).cache().pods() == old(self).cache().pods(),
            final(self).cache().nodes() == old(self).cache().nodes(),
    {
        match event {
            WatchEvent::Apply(service) | WatchEvent::InitApply(service) => {
                let name = or_empty(&service.metadata.name);
                let found = service_metadata(&service);
                let news = match self.metadata_cache.get_service_cached(namespace, name.as_str()) {
                    Some(known) => !known.labels.same_as(&found.labels)
                        || !known.annotations.same_as(&found.annotations),
                    None => true,
                };
                if news {
                    self.metadata_cache.update_service(namespace, name.as_str(), Arc::new(found));
                }
            },
            WatchEvent::Delete(service) => match &service.metadata.name {
                Some(name) => self.metadata_cache.remove_service(namespace, name.as_str()),
                None => {},
            },
            _ => {},
        }
    }

    /// Takes in what the watch of nodes told.
    pub fn apply_node_event(&mut self, event: WatchEvent<Node>)
        ensures
            final(self).users() == old(self).users(),
            final(self).node_users() == old(self).node_users(),
            nodes_follow(old(self).cache().nodes(), final(self).cache().nodes(), event),
            final(self).cache().pods() == old(self).cache().pods(),
            final(self).cache().services() == old(self).cache().services(),
    {
        match event {
            WatchEvent::Apply(node) | WatchEvent::InitApply(node) => {
                let name = or_empty(&node.metadata.name);
                let found = node_metadata(name.as_str(), &node, preferred_ip_of_node(&node));
                let news = match self.metadata_cache.get_node_cached(name.as_str()) {
                    Some(known) => !known.labels.same_as(&found.labels) || !same_opt(
                        &known.node_ip,
                        &found.node_ip,
                    ),
                    None => true,
                };
                if news {
                    self.metadata_cache.update_node(name.as_str(), Arc::new(found));
                }
            },
            WatchEvent::Delete(node) => match &node.metadata.name {
                Some(name) => self.metadata_cache.remove_node(name.as_str()),
                None => {},
            },
            _ => {},
        }
    }
}

/// A user that came and left again leaves the number of users as it was, and a
/// namespace is in use for as long as it has users.
pub proof fn law_watch_lives_with_its_users(users: Map<Seq<char>, usize>, ns: Seq<char>)
    requires
        all_used(users),
        users.contains_key(ns) ==> users[ns] < usize::MAX,
    ensures
        all_used(one_more(users, ns)),
        all_used(one_less(users, ns)),
        one_less(one_more(users, ns), ns) == users,
        one_more(users, ns).contains_key(ns),
        one_less(users, ns).contains_key(ns) <==> users.contains_key(ns) && users[ns] > 1,
{
    assert(one_less(one_more(users, ns), ns) =~= users);
}

/// A user of a namespace comes or leaves.
pub enum UserChange {
    Comes(Seq<char>),
    Leaves(Seq<char>),
}

/// The users of each namespace after a change.
pub open spec fn users_after(
    users: Map<Seq<char>, usize>,
    change: UserChange,
) -> Map<Seq<char>, usize> {
    match change {
        UserChange::Comes(ns) => one_more(users, ns),
        UserChange::Leaves(ns) => one_less(users, ns),
    }
}

/// What a user of a namespace that comes asks for.
pub open spec fn action_on_more(users: Map<Seq<char>, usize>, ns: Seq<char>) -> WatchAction {
    if users.contains_key(ns) {
        WatchAction::Keep
    } else {
        WatchAction::Start
    }
}

/// What a user of a namespace that leaves asks for.
pub open spec fn action_on_less(users: Map<Seq<char>, usize>, ns: Seq<char>) -> WatchAction {
    if users.contains_key(ns) && users[ns] == 1 {
        WatchAction::Stop
    } else {
        WatchAction::Keep
    }
}

/// The users of each namespace after changes, one after the other.
pub open spec fn users_after_all(
    users: Map<Seq<char>, usize>,
    changes: Seq<UserChange>,
) -> Map<Seq<char>, usize>
    decreases changes.len(),
{
    if changes.len() == 0 {
        users
    } else {
        users_after(users_after_all(users, changes.drop_last()), changes.last())
    }
}

/// How many watches of a namespace run, where `running` ran before the changes: every
/// start adds one, and every stop takes one away.
pub open spec fn watches_after_all(
    running: int,
    users: Map<Seq<char>, usize>,
    changes: Seq<UserChange>,
    ns: Seq<char>,
) -> int
    decreases changes.len(),
{
    if changes.len() == 0 {
        running
    } else {
        let before = users_after_all(users, changes.drop_last());
        let n = watches_after_all(running, users, changes.drop_last(), ns);
        match changes.last() {
            UserChange::Comes(x) => if x == ns && action_on_more(before, x) is Start {
                n + 1
            } else {
                n
            },
            UserChange::Leaves(x) => if x == ns && action_on_less(before, x) is Stop {
                n - 1
            } else {
                n
            },
        }
    }
}

/// However users come and leave, a namespace that has users is watched once, and one
/// that has none is not watched.
pub proof fn law_one_watch_for_each_namespace(changes: Seq<UserChange>, ns: Seq<char>)
    requires
        changes.len() <= usize::MAX,
    ensures
        ({
            let users = users_after_all(Map::empty(), changes);
            &&& all_used(users)
            &&& forall|x: Seq<char>| #[trigger] users.contains_key(x) ==> users[x] <= changes.len()
            &&& watches_after_all(0, Map::empty(), changes, ns) == if users.contains_key(ns) {
                1int
            } else {
                0int
            }
        }),
    decreases changes.len(),
{
    if changes.len() > 0 {
        law_one_watch_for_each_namespace(changes.drop_last(), ns);
    }
}

/// The users of one namespace do not count for another.
pub proof fn law_namespaces_count_apart(
    users: Map<Seq<char>, usize>,
    ns: Seq<char>,
    other: Seq<char>,
)
    requires
        ns != other,
    ensures
        cached(one_more(users, ns), other) == cached(users, other),
        cached(one_less(users, ns), other) == cached(users, other),
{
}

// ---------------------------------------------------------------------------
// What a watch tells
// ---------------------------------------------------------------------------
/// What a watch tells of objects of one kind.
#[derive(Debug)]
pub enum WatchEvent<K> {
    /// The object was made or changed.
    Apply(K),
    /// The object is gone.
    Delete(K),
    /// The watch begins to list what there is.
    Init,
    /// The object is one of those that there are.
    InitApply(K),
    /// All objects that there are were listed.
    InitDone,
    /// The watch was interrupted.
    Error,
}

/// What is kept of pods after an event: a change is taken over where the labels,
/// the annotations or the address are other ones.
pub open spec fn pods_follow(
    before: Map<Seq<char>, Arc<PodMetadata>>,
    after: Map<Seq<char>, Arc<PodMetadata>>,
    namespace: Seq<char>,
    event: WatchEvent<Pod>,
) -> bool {
    match event {
        WatchEvent::Apply(pod) | WatchEvent::InitApply(pod) => {
            let key = object_key(namespace, text_or_empty(pod.metadata.name));
            let found = pod_view(pod);
            if cached(before, key) matches Some(known) && known@.labels == found.labels
                && known@.annotations == found.annotations && known@.pod_ip == found.pod_ip {
                after == before
            } else {
                after == before.insert(key, after[key]) && after[key]@ == found
            }
        },
        WatchEvent::Delete(pod) => match pod.metadata.name {
            Some(name) => after == before.remove(object_key(namespace, name@)),
            None => after == before,
        },
        _ => after == before,
    }
}

/// What is kept of services after an event: a change is taken over where the labels
/// or the annotations are other ones.
pub open spec fn services_follow(
    before: Map<Seq<char>, Arc<ServiceMetadata>>,
    after: Map<Seq<char>, Arc<ServiceMetadata>>,
    namespace: Seq<char>,
    event: WatchEvent<Service>,
) -> bool {
    match event {
        WatchEvent::Apply(service) | WatchEvent::InitApply(service) => {
            let key = object_key(namespace, text_or_empty(service.metadata.name));
            let found = service_view(service);
            if cached(before, key) matches Some(known) && known@.labels == found.labels
                && known@.annotations == found.annotations {
                after == before
            } else {
                after == before.insert(key, after[key]) && after[key]@ == found
            }
        },
        WatchEvent::Delete(service) => match service.metadata.name {
            Some(name) => after == before.remove(object_key(namespace, name@)),
            None => after == before,
        },
        _ => after == before,
    }
}

/// What is kept of nodes after an event: a change is taken over where the labels or
/// the address are other ones.
pub open spec fn nodes_follow(
    before: Map<Seq<char>, Arc<NodeMetadata>>,
    after: Map<Seq<char>, Arc<NodeMetadata>>,
    event: WatchEvent<Node>,
) -> bool {
    match event {
        WatchEvent::Apply(node) | WatchEvent::InitApply(node) => {
            let key = text_or_empty(node.metadata.name);
            let found = node_view(key, node, preferred_ip(node_addresses(node)));
            if cached(before, key) matches Some(known) && known@.labels == found.labels
                && known@.node_ip == found.node_ip {
                after == before
            } else {
                after == before.insert(key, after[key]) && after[key]@ == found
            }
        },
        WatchEvent::Delete(node) => match node.metadata.name {
            Some(name) => after == before.remove(name@),
            None => after == before,
        },
        _ => after == before,
    }
}

/// After a pod was announced, what is kept of it has its labels, its annotations and
/// its address, and nothing else is touched.
pub proof fn law_announced_pod_is_known(
    before: Map<Seq<char>, Arc<PodMetadata>>,
    after: Map<Seq<char>, Arc<PodMetadata>>,
    namespace: Seq<char>,
    pod: Pod,
    other: Seq<char>,
)
    requires
        pods_follow(before, after, namespace, WatchEvent::Apply(pod)) || pods_follow(
            before,
            after,
            namespace,
            WatchEvent::InitApply(pod),
        ),
    ensures
        ({
            let key = object_key(namespace, text_or_empty(pod.metadata.name));
            let found = pod_view(pod);
            &&& cached(after, key) matches Some(m)
            &&& m@.labels == found.labels && m@.annotations == found.annotations && m@.pod_ip
                == found.pod_ip
            &&& other != key ==> cached(after, other) == cached(before, other)
        }),
{
}

/// After a service was announced, what is kept of it has its labels and its
/// annotations, and nothing else is touched.
pub proof fn law_announced_service_is_known(
    before: Map<Seq<char>, Arc<ServiceMetadata>>,
    after: Map<Seq<char>, Arc<ServiceMetadata>>,
    namespace: Seq<char>,
    service: Service,
    other: Seq<char>,
)
    requires
        services_follow(before, after, namespace, WatchEvent::Apply(service)) || services_follow(
            before,
            after,
            namespace,
            WatchEvent::InitApply(service),
        ),
    ensures
        ({
            let key = object_key(namespace, text_or_empty(service.metadata.name));
            let found = service_view(service);
            &&& cached(after, key) matches Some(m)
            &&& m@.labels == found.labels && m@.annotations == found.annotations
            &&& other != key ==> cached(after, other) == cached(before, other)
        }),
{
}

/// After a node was announced, what is kept of it has its labels and its address, and
/// nothing else is touched.
pub proof fn law_announced_node_is_known(
    before: Map<Seq<char>, Arc<NodeMetadata>>,
    after: Map<Seq<char>, Arc<NodeMetadata>>,
    node: Node,
    other: Seq<char>,
)
    requires
        nodes_follow(before, after, WatchEvent::Apply(node)) || nodes_follow(
            before,
            after,
            WatchEvent::InitApply(node),
        ),
    ensures
        ({
            let key = text_or_empty(node.metadata.name);
            let found = node_view(key, node, preferred_ip(node_addresses(node)));
            &&& cached(after, key) matches Some(m)
            &&& m@.labels == found.labels && m@.node_ip == found.node_ip
            &&& other != key ==> cached(after, other) == cached(before, other)
        }),
{
}

/// Telling the same of a pod twice changes nothing the second time.
pub proof fn law_announcing_twice_changes_nothing(
    before: Map<Seq<char>, Arc<PodMetadata>>,
    after: Map<Seq<char>, Arc<PodMetadata>>,
    again: Map<Seq<char>, Arc<PodMetadata>>,
    namespace: Seq<char>,
    pod: Pod,
)
    requires
        pods_follow(before, after, namespace, WatchEvent::Apply(pod)),
        pods_follow(after, again, namespace, WatchEvent::Apply(pod)),
    ensures
        again == after,
{
}

/// Telling the same of a service twice changes nothing the second time.
pub proof fn law_announcing_service_twice_changes_nothing(
    before: Map<Seq<char>, Arc<ServiceMetadata>>,
    after: Map<Seq<char>, Arc<ServiceMetadata>>,
    again: Map<Seq<char>, Arc<ServiceMetadata>>,
    namespace: Seq<char>,
    service: Service,
)
    requires
        services_follow(before, after, namespace, WatchEvent::Apply(service)),
        services_follow(after, again, namespace, WatchEvent::Apply(service)),
    ensures
        again == after,
{
}

/// Telling the same of a node twice changes nothing the second time.
pub proof fn law_announcing_node_twice_changes_nothing(
    before: Map<Seq<char>, Arc<NodeMetadata>>,
    after: Map<Seq<char>, Arc<NodeMetadata>>,
    again: Map<Seq<char>, Arc<NodeMetadata>>,
    node: Node,
)
    requires
        nodes_follow(before, after, WatchEvent::Apply(node)),
        nodes_follow(after, again, WatchEvent::Apply(node)),
    ensures
        again == after,
{
}

/// A pod that was deleted is not known, whatever was known of it before.
pub proof fn law_deleted_pod_is_forgotten(
    before: Map<Seq<char>, Arc<PodMetadata>>,
    after: Map<Seq<char>, Arc<PodMetadata>>,
    namespace: Seq<char>,
    pod: Pod,
)
    requires
        pod.metadata.name is Some,
        pods_follow(before, after, namespace, WatchEvent::Delete(pod)),
    ensures
        cached(after, object_key(namespace, text_or_empty(pod.metadata.name))) is None,
{
}

// ---------------------------------------------------------------------------
// Guards
// ---------------------------------------------------------------------------
/// One user of a namespace.
#[derive(Clone, Debug)]
pub struct NamespaceWatchGuard {
    namespace: String,
}

impl NamespaceWatchGuard {
    /// The namespace that is used.
    pub closed spec fn namespace(&self) -> Seq<char> {
        self.namespace@
    }

    /// Becomes a user of the namespace.
    pub fn new(namespace: String, manager: &mut NamespaceWatchManager) -> (r: (
        NamespaceWatchGuard,
        WatchAction,
    ))
        requires
            old(manager).well_formed(),
            old(manager).users().contains_key(namespace@) ==> old(manager).users()[namespace@]
                < usize::MAX,
        ensures
            final(manager).well_formed(),
            final(manager).users() == one_more(old(manager).users(), namespace@),
            final(manager).node_users() == old(manager).node_users(),
            final(manager).cache() == old(manager).cache(),
            r.0.namespace() == namespace@,
            r.1 == if old(manager).users().contains_key(namespace@) {
                WatchAction::Keep
            } else {
                WatchAction::Start
            },
            r.1 == action_on_more(old(manager).users(), namespace@),
    {
        let action = manager.register_namespace(namespace.as_str());
        (NamespaceWatchGuard { namespace }, action)
    }

    /// Ceases to be a user of the namespace.
    pub fn release(self, manager: &mut NamespaceWatchManager) -> (r: WatchAction)
        requires
            old(manager).well_formed(),
        ensures
            final(manager).well_formed(),
            final(manager).users() == one_less(old(manager).users(), self.namespace()),
            final(manager).node_users() == old(manager).node_users(),
            final(manager).cache() == old(manager).cache(),
            r == if old(manager).users().contains_key(self.namespace())
                && old(manager).users()[self.namespace()] == 1 {
                WatchAction::Stop
            } else {
                WatchAction::Keep
            },
            r == action_on_less(old(manager).users(), self.namespace()),
    {
        manager.unregister_namespace(self.namespace.as_str())
    }
}

/// One user of nodes.
#[derive(Clone, Debug)]
pub struct NodeWatchGuard;

impl NodeWatchGuard {
    /// Becomes a user of nodes.
    pub fn new(manager: &mut NamespaceWatchManager) -> (r: (NodeWatchGuard, WatchAction))
        requires
            old(manager).well_formed(),
            old(manager).node_users() matches Some(n) ==> n < usize::MAX,
        ensures
            final(manager).well_formed(),
            final(manager).users() == old(manager).users(),
            final(manager).cache() == old(manager).cache(),
            match old(manager).node_users() {
                Some(n) => r.1 is Keep && final(manager).node_users() == Some((n + 1) as usize),
                None => r.1 is Start && final(manager).node_users() == Some(1usize),
            },
            (final(manager).node_users(), r.1) == one_more_of_nodes(old(manager).node_users()),
    {
        let action = manager.register_node_watch();
        (NodeWatchGuard, action)
    }

    /// Ceases to be a user of nodes.
    pub fn release(self, manager: &mut NamespaceWatchManager) -> (r: WatchAction)
        requires
            old(manager).well_formed(),
        ensures
            final(manager).well_formed(),
            final(manager).users() == old(manager).users(),
            final(manager).cache() == old(manager).cache(),
            match old(manager).node_users() {
                Some(n) => if n == 1 {
                    r is Stop && final(manager).node_users() is None
                } else {
                    r is Keep && final(manager).node_users() == Some((n - 1) as usize)
                },
                None => r is Keep && final(manager).node_users() is None,
            },
            (final(manager).node_users(), r) == one_less_of_nodes(old(manager).node_users()),
    {
        manager.unregister_node_watch()
    }
}

// ---------------------------------------------------------------------------
// What coming, leaving and telling change
// ---------------------------------------------------------------------------
/// The users of nodes after one more came, and what that asks for.
pub open spec fn one_more_of_nodes(users: Option<usize>) -> (Option<usize>, WatchAction) {
    match users {
        Some(n) => (Some((n + 1) as usize), WatchAction::Keep),
        None => (Some(1), WatchAction::Start),
    }
}

/// The users of nodes after one left, and what that asks for.
pub open spec fn one_less_of_nodes(users: Option<usize>) -> (Option<usize>, WatchAction) {
    match users {
        Some(n) => if n == 1 {
            (None, WatchAction::Stop)
        } else {
            (Some((n - 1) as usize), WatchAction::Keep)
        },
        None => (None, WatchAction::Keep),
    }
}

/// How many users there are, none where they are not counted.
pub open spec fn count_of(users: Option<usize>) -> int {
    match users {
        Some(n) => n as int,
        None => 0,
    }
}

/// A user of nodes that comes is counted once, and the first one starts the watch; one
/// that leaves is counted off once, and the last one stops the watch; nothing else
/// starts or stops it.
pub proof fn law_nodes_are_watched_while_they_have_users(users: Option<usize>)
    requires
        users matches Some(n) ==> 0 < n < usize::MAX,
    ensures
        count_of(one_more_of_nodes(users).0) == count_of(users) + 1,
        count_of(users) > 0 ==> count_of(one_less_of_nodes(users).0) == count_of(users) - 1,
        count_of(users) == 0 ==> one_less_of_nodes(users).0 == users,
        one_more_of_nodes(users).1 is Start <==> count_of(users) == 0,
        one_more_of_nodes(users).1 !is Stop,
        one_less_of_nodes(users).1 is Stop <==> count_of(users) == 1,
        one_less_of_nodes(users).1 !is Start,
        one_less_of_nodes(users).0 is Some <==> count_of(users) > 1,
{
}

/// A user of a namespace that comes is counted once, and the first one starts its
/// watches; one that leaves is counted off once, and the last one stops them; nothing
/// else starts or stops them.
pub proof fn law_users_are_counted_one_by_one(users: Map<Seq<char>, usize>, ns: Seq<char>)
    requires
        all_used(users),
        users.contains_key(ns) ==> users[ns] < usize::MAX,
    ensures
        count_of(cached(one_more(users, ns), ns)) == count_of(cached(users, ns)) + 1,
        count_of(cached(users, ns)) > 0 ==> count_of(cached(one_less(users, ns), ns)) == count_of(
            cached(users, ns),
        ) - 1,
        count_of(cached(users, ns)) == 0 ==> one_less(users, ns) == users,
        action_on_more(users, ns) is Start <==> count_of(cached(users, ns)) == 0,
        action_on_more(users, ns) !is Stop,
        action_on_less(users, ns) is Stop <==> count_of(cached(users, ns)) == 1,
        action_on_less(users, ns) !is Start,
{
}

/// What is deleted is forgotten, and nothing else is; an event that names no object
/// changes nothing.
pub proof fn law_only_the_deleted_is_forgotten(
    pods: Map<Seq<char>, Arc<PodMetadata>>,
    pods2: Map<Seq<char>, Arc<PodMetadata>>,
    services: Map<Seq<char>, Arc<ServiceMetadata>>,
    services2: Map<Seq<char>, Arc<ServiceMetadata>>,
    nodes: Map<Seq<char>, Arc<NodeMetadata>>,
    nodes2: Map<Seq<char>, Arc<NodeMetadata>>,
    ns: Seq<char>,
    pod: Pod,
    service: Service,
    node: Node,
    name: Seq<char>,
    other: Seq<char>,
)
    ensures
        (pod.metadata.name matches Some(n) && n@ == name) && pods_follow(
            pods,
            pods2,
            ns,
            WatchEvent::Delete(pod),
        ) ==> {
            &&& cached(pods2, object_key(ns, name)) is None
            &&& other != object_key(ns, name) ==> cached(pods2, other) == cached(pods, other)
        },
        (service.metadata.name matches Some(n) && n@ == name) && services_follow(
            services,
            services2,
            ns,
            WatchEvent::Delete(service),
        ) ==> {
            &&& cached(services2, object_key(ns, name)) is None
            &&& other != object_key(ns, name) ==> cached(services2, other) == cached(
                services,
                other,
            )
        },
        (node.metadata.name matches Some(n) && n@ == name) && nodes_follow(
            nodes,
            nodes2,
            WatchEvent::Delete(node),
        ) ==> {
            &&& cached(nodes2, name) is None
            &&& other != name ==> cached(nodes2, other) == cached(nodes, other)
        },
        pod.metadata.name is None && pods_follow(pods, pods2, ns, WatchEvent::Delete(pod)) ==> pods2
            == pods,
        service.metadata.name is None && services_follow(
            services,
            services2,
            ns,
            WatchEvent::Delete(service),
        ) ==> services2 == services,
        node.metadata.name is None && nodes_follow(nodes, nodes2, WatchEvent::Delete(node))
            ==> nodes2 == nodes,
{
}

/// That a watch begins, that it has listed everything, or that it was interrupted
/// takes nothing from what is known.
pub proof fn law_interruptions_change_nothing(
    pods: Map<Seq<char>, Arc<PodMetadata>>,
    pods2: Map<Seq<char>, Arc<PodMetadata>>,
    services: Map<Seq<char>, Arc<ServiceMetadata>>,
    services2: Map<Seq<char>, Arc<ServiceMetadata>>,
    nodes: Map<Seq<char>, Arc<NodeMetadata>>,
    nodes2: Map<Seq<char>, Arc<NodeMetadata>>,
    ns: Seq<char>,
)
    ensures
        pods_follow(pods, pods2, ns, WatchEvent::Init) || pods_follow(
            pods,
            pods2,
            ns,
            WatchEvent::InitDone,
        ) || pods_follow(pods, pods2, ns, WatchEvent::Error) ==> pods2 == pods,
        services_follow(services, services2, ns, WatchEvent::Init) || services_follow(
            services,
            services2,
            ns,
            WatchEvent::InitDone,
        ) || services_follow(services, services2, ns, WatchEvent::Error) ==> services2 == services,
        nodes_follow(nodes, nodes2, WatchEvent::Init) || nodes_follow(
            nodes,
            nodes2,
            WatchEvent::InitDone,
        ) || nodes_follow(nodes, nodes2, WatchEvent::Error) ==> nodes2 == nodes,
{
}

/// What is announced for the first time is kept in full, under its own namespace and
/// name, a node with its preferred address.
pub proof fn law_first_announcement_is_kept_in_full(
    pods: Map<Seq<char>, Arc<PodMetadata>>,
    pods2: Map<Seq<char>, Arc<PodMetadata>>,
    services: Map<Seq<char>, Arc<ServiceMetadata>>,
    services2: Map<Seq<char>, Arc<ServiceMetadata>>,
    nodes: Map<Seq<char>, Arc<NodeMetadata>>,
    nodes2: Map<Seq<char>, Arc<NodeMetadata>>,
    ns: Seq<char>,
    pod: Pod,
    service: Service,
    node: Node,
    name: Seq<char>,
)
    ensures
        (pod.metadata.name matches Some(n) && n@ == name) && !pods.contains_key(
            object_key(ns, name),
        ) && (pods_follow(pods, pods2, ns, WatchEvent::Apply(pod)) || pods_follow(
            pods,
            pods2,
            ns,
            WatchEvent::InitApply(pod),
        )) ==> pods2.contains_key(object_key(ns, name)) && pods2[object_key(ns, name)]@ == pod_view(
            pod,
        ),
        (service.metadata.name matches Some(n) && n@ == name) && !services.contains_key(
            object_key(ns, name),
        ) && (services_follow(services, services2, ns, WatchEvent::Apply(service))
            || services_follow(services, services2, ns, WatchEvent::InitApply(service)))
            ==> services2.contains_key(object_key(ns, name)) && services2[object_key(ns, name)]@
            == service_view(service),
        (node.metadata.name matches Some(n) && n@ == name) && !nodes.contains_key(name) && (
        nodes_follow(nodes, nodes2, WatchEvent::Apply(node)) || nodes_follow(
            nodes,
            nodes2,
            WatchEvent::InitApply(node),
        )) ==> nodes2.contains_key(name) && nodes2[name]@ == node_view(
            name,
            node,
            preferred_ip(node_addresses(node)),
        ),
{
}

/// What changed of an object that is known is taken over: afterwards what is kept has
/// the labels, the annotations and the address that were announced.
pub proof fn law_changes_are_taken_over(
    pods: Map<Seq<char>, Arc<PodMetadata>>,
    pods2: Map<Seq<char>, Arc<PodMetadata>>,
    nodes: Map<Seq<char>, Arc<NodeMetadata>>,
    nodes2: Map<Seq<char>, Arc<NodeMetadata>>,
    ns: Seq<char>,
    pod: Pod,
    node: Node,
    name: Seq<char>,
)
    ensures
        (pod.metadata.name matches Some(n) && n@ == name) && pods_follow(
            pods,
            pods2,
            ns,
            WatchEvent::Apply(pod),
        ) ==> {
            let k = object_key(ns, name);
            &&& pods2.contains_key(k)
            &&& pod.metadata.labels matches Some(m) ==> pods2[k]@.labels == crate::table::text_rows(
                m,
            )
            &&& pod.metadata.annotations matches Some(m) ==> pods2[k]@.annotations
                == crate::table::text_rows(m)
            &&& pod.status is None ==> pods2[k]@.pod_ip is None
        },
        (node.metadata.name matches Some(n) && n@ == name) && nodes_follow(
            nodes,
            nodes2,
            WatchEvent::Apply(node),
        ) ==> {
            &&& nodes2.contains_key(name)
            &&& node.metadata.labels matches Some(m) ==> nodes2[name]@.labels
                == crate::table::text_rows(m)
            &&& nodes2[name]@.node_ip == preferred_ip(node_addresses(node))
        },
{
}

} // verus!

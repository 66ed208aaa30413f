//! Which container a GPU was given to.
use vstd::prelude::*;

use crate::table::{lemma_same_reading, TextMap};
use crate::text::{copy, same, texts};

verus! {

/// A container.
#[derive(Clone, Debug)]
pub struct PodInfo {
    /// Its pod.
    pub pod: String,
    /// The pod's namespace.
    pub namespace: String,
    /// Its name.
    pub container: String,
}

/// A container, read as characters.
#[verifier::ext_equal]
pub struct PodInfoView {
    pub pod: Seq<char>,
    pub namespace: Seq<char>,
    pub container: Seq<char>,
}

impl View for PodInfo {
    type V = PodInfoView;

    open spec fn view(&self) -> PodInfoView {
        PodInfoView {
            pod: self.pod@,
            namespace: self.namespace@,
            container: self.container@,
        }
    }
}

impl Default for PodInfo {
    fn default() -> (r: PodInfo)
        ensures
            r@ == (PodInfoView { pod: ""@, namespace: ""@, container: ""@ }),
    {
        PodInfo { pod: copy(""), namespace: copy(""), container: copy("") }
    }
}

/// A copy of a container's names.
pub fn copy_info(p: &PodInfo) -> (r: PodInfo)
    ensures
        r@ == p@,
{
    PodInfo {
        pod: copy(p.pod.as_str()),
        namespace: copy(p.namespace.as_str()),
        container: copy(p.container.as_str()),
    }
}

/// The container of each GPU, read as characters.
pub type OwnerMap = Map<Seq<char>, PodInfoView>;

/// The container of each GPU, read as characters.
pub open spec fn owner_map(m: TextMap<PodInfo>) -> OwnerMap {
    m@.map_values(|p: PodInfo| p@)
}

/// The container of a GPU, where it was given to one.
pub open spec fn owner_in(m: OwnerMap, id: Seq<char>) -> Option<PodInfoView> {
    if m.contains_key(id) {
        Some(m[id])
    } else {
        None
    }
}

/// A container, read as characters, where there is one.
pub open spec fn info_view(p: Option<PodInfo>) -> Option<PodInfoView> {
    match p {
        Some(p) => Some(p@),
        None => None,
    }
}

/// The container of each GPU, by the GPU's identifier. There is one such mapping:
/// whoever shares it does so behind a lock around the one who keeps it up to date.
#[derive(Debug)]
pub struct PodResourcesMapper {
    owners: TextMap<PodInfo>,
}

impl View for PodResourcesMapper {
    type V = OwnerMap;

    closed spec fn view(&self) -> OwnerMap {
        owner_map(self.owners)
    }
}

impl Default for PodResourcesMapper {
    fn default() -> (r: PodResourcesMapper)
        ensures
            r@ == Map::<Seq<char>, PodInfoView>::empty(),
    {
        let r = PodResourcesMapper { owners: TextMap::new() };
        assert(r@ =~= Map::<Seq<char>, PodInfoView>::empty());
        r
    }
}

impl PodResourcesMapper {
    /// No GPU was given to a container.
    pub fn new() -> (r: PodResourcesMapper)
        ensures
            r@ == Map::<Seq<char>, PodInfoView>::empty(),
    {
        PodResourcesMapper::default()
    }

    /// Takes over which container each GPU was given to. Nothing stays of what was
    /// known before.
    pub fn update(&mut self, data: &TextMap<PodInfo>)
        ensures
            final(self)@ == owner_map(*data),
    {
        let mut infos: Vec<PodInfo> = Vec::new();
        let n: usize = data.len();
        let mut i: usize = 0;
        while i < n
            invariant
                n == data.rows().len(),
                i <= n,
                infos@.len() == i,
                forall|j: int| 0 <= j < i ==> (#[trigger] infos@[j])@ == data.rows()[j].1@,
            decreases n - i,
        {
            infos.push(copy_info(data.value_at(i)));
            i = i + 1;
        }
        let ghost given = infos@;
        self.owners = data.with_values(infos);
        proof {
            let a = self.owners.rows();
            let b = data.rows();
            assert forall|j: int| 0 <= j < a.len() implies (#[trigger] a[j]).0 == b[j].0
                && a[j].1@ == b[j].1@ by {
                assert(a[j] == (b[j].0, given[j]));
            }
            lemma_same_reading(a, b, |p: PodInfo| p@, |p: PodInfo| p@);
        }
    }

    /// The container that a GPU was given to.
    pub fn get(&self, gpu_id: &str) -> (r: Option<PodInfo>)
        ensures
            info_view(r) == owner_in(self@, gpu_id@),
    {
        match self.owners.get(gpu_id) {
            Some(p) => Some(copy_info(p)),
            None => None,
        }
    }
}

/// The mapping is replaced and not merged: after it was taken over, every GPU has the
/// container that it has in the new data, and none where it does not occur there,
/// whatever was known before.
pub proof fn law_update_replaces_the_mapping(
    after: PodResourcesMapper,
    data: TextMap<PodInfo>,
    id: Seq<char>,
)
    requires
        after@ == owner_map(data),
    ensures
        data@.contains_key(id) ==> owner_in(after@, id) == Some(data@[id]@),
        !data@.contains_key(id) ==> owner_in(after@, id) is None,
{
}

// ---------------------------------------------------------------------------
// What the kubelet lists
// ---------------------------------------------------------------------------
/// Devices of one kind that a container has.
#[derive(Clone, Debug)]
pub struct ContainerDevices {
    /// The kind.
    pub resource_name: String,
    /// The devices.
    pub device_ids: Vec<String>,
}

/// What a container has.
#[derive(Clone, Debug)]
pub struct ContainerResources {
    /// The container.
    pub name: String,
    /// Its devices.
    pub devices: Vec<ContainerDevices>,
}

/// What a pod has.
#[derive(Clone, Debug)]
pub struct PodResources {
    /// The pod.
    pub name: String,
    /// Its namespace.
    pub namespace: String,
    /// Its containers.
    pub containers: Vec<ContainerResources>,
}

/// `m` with a container for each of the devices.
pub open spec fn owned_ids(m: OwnerMap, ids: Seq<Seq<char>>, owner: PodInfoView) -> OwnerMap
    decreases ids.len(),
{
    if ids.len() == 0 {
        m
    } else {
        owned_ids(m, ids.drop_last(), owner).insert(ids.last(), owner)
    }
}

/// `m` with a container for each of its GPUs.
pub open spec fn owned_devices(
    m: OwnerMap,
    devices: Seq<ContainerDevices>,
    owner: PodInfoView,
) -> OwnerMap
    decreases devices.len(),
{
    if devices.len() == 0 {
        m
    } else {
        let before = owned_devices(m, devices.drop_last(), owner);
        if devices.last().resource_name@ == "nvidia.com/gpu"@ {
            owned_ids(before, texts(devices.last().device_ids@), owner)
        } else {
            before
        }
    }
}

/// `m` with the containers of a pod for each of their GPUs.
pub open spec fn owned_containers(
    m: OwnerMap,
    containers: Seq<ContainerResources>,
    pod: Seq<char>,
    namespace: Seq<char>,
) -> OwnerMap
    decreases containers.len(),
{
    if containers.len() == 0 {
        m
    } else {
        owned_devices(
            owned_containers(m, containers.drop_last(), pod, namespace),
            containers.last().devices@,
            PodInfoView { pod, namespace, container: containers.last().name@ },
        )
    }
}

/// The container of each GPU that is listed. Of two that have one GPU, the later one
/// counts.
pub open spec fn owners_of(pods: Seq<PodResources>) -> OwnerMap
    decreases pods.len(),
{
    if pods.len() == 0 {
        Map::empty()
    } else {
        owned_containers(
            owners_of(pods.drop_last()),
            pods.last().containers@,
            pods.last().name@,
            pods.last().namespace@,
        )
    }
}

fn take_ids(m: &mut TextMap<PodInfo>, ids: &Vec<String>, owner: &PodInfo)
    ensures
        owner_map(*final(m)) == owned_ids(owner_map(*old(m)), texts(ids@), owner@),
{
    let n: usize = ids.len();
    let ghost all = texts(ids@);
    let mut i: usize = 0;
    assert(all.take(0) =~= Seq::<Seq<char>>::empty());
    while i < n
        invariant
            n == ids@.len(),
            all == texts(ids@),
            i <= n,
            owner_map(*m) == owned_ids(owner_map(*old(m)), all.take(i as int), owner@),
        decreases n - i,
    {
        assert(all.take(i + 1).drop_last() =~= all.take(i as int));
        assert(all.take(i + 1).last() == ids@[i as int]@);
        let ghost was = m@;
        let p = copy_info(owner);
        let ghost pv = p@;
        let _ = m.insert(copy(ids[i].as_str()), p);
        assert(owner_map(*m) =~= was.map_values(|p: PodInfo| p@).insert(ids@[i as int]@, pv));
        i = i + 1;
    }
    assert(all.take(n as int) =~= all);
}

fn take_devices(m: &mut TextMap<PodInfo>, devices: &Vec<ContainerDevices>, owner: &PodInfo)
    ensures
        owner_map(*final(m)) == owned_devices(owner_map(*old(m)), devices@, owner@),
{
    let n: usize = devices.len();
    let ghost all = devices@;
    let mut i: usize = 0;
    assert(all.take(0) =~= Seq::<ContainerDevices>::empty());
    while i < n
        invariant
            n == devices@.len(),
            all == devices@,
            i <= n,
            owner_map(*m) == owned_devices(owner_map(*old(m)), all.take(i as int), owner@),
        decreases n - i,
    {
        assert(all.take(i + 1).drop_last() =~= all.take(i as int));
        assert(all.take(i + 1).last() == all[i as int]);
        if same(devices[i].resource_name.as_str(), "nvidia.com/gpu") {
            take_ids(m, &devices[i].device_ids, owner);
        }
        i = i + 1;
    }
    assert(all.take(n as int) =~= all);
}

fn take_containers(m: &mut TextMap<PodInfo>, pod: &PodResources)
    ensures
        owner_map(*final(m)) == owned_containers(
            owner_map(*old(m)),
            pod.containers@,
            pod.name@,
            pod.namespace@,
        ),
{
    let n: usize = pod.containers.len();
    let ghost all = pod.containers@;
    let mut i: usize = 0;
    assert(all.take(0) =~= Seq::<ContainerResources>::empty());
    while i < n
        invariant
            n == pod.containers@.len(),
            all == pod.containers@,
            i <= n,
            owner_map(*m) == owned_containers(
                owner_map(*old(m)),
                all.take(i as int),
                pod.name@,
                pod.namespace@,
            ),
        decreases n - i,
    {
        assert(all.take(i + 1).drop_last() =~= all.take(i as int));
        assert(all.take(i + 1).last() == all[i as int]);
        let owner = PodInfo {
            pod: copy(pod.name.as_str()),
            namespace: copy(pod.namespace.as_str()),
            container: copy(pod.containers[i].name.as_str()),
        };
        take_devices(m, &pod.containers[i].devices, &owner);
        i = i + 1;
    }
    assert(all.take(n as int) =~= all);
}

/// The container of each GPU that is listed.
pub fn gpu_owners(pods: &Vec<PodResources>) -> (r: TextMap<PodInfo>)
    ensures
        owner_map(r) == owners_of(pods@),
{
    let mut m: TextMap<PodInfo> = TextMap::new();
    let n: usize = pods.len();
    let ghost all = pods@;
    let mut i: usize = 0;
    assert(owner_map(m) =~= Map::<Seq<char>, PodInfoView>::empty());
    assert(all.take(0) =~= Seq::<PodResources>::empty());
    while i < n
        invariant
            n == pods@.len(),
            all == pods@,
            i <= n,
            owner_map(m) == owners_of(all.take(i as int)),
        decreases n - i,
    {
        assert(all.take(i + 1).drop_last() =~= all.take(i as int));
        assert(all.take(i + 1).last() == all[i as int]);
        take_containers(&mut m, &pods[i]);
        i = i + 1;
    }
    assert(all.take(n as int) =~= all);
    m
}

/// Container `c` of pod `p` has the GPU `id`.
pub open spec fn has_gpu(pods: Seq<PodResources>, p: int, c: int, id: Seq<char>) -> bool {
    &&& 0 <= p < pods.len()
    &&& 0 <= c < pods[p].containers@.len()
    &&& has_gpu_device(pods[p].containers@[c].devices@, id)
}

/// One of the devices is the GPU `id`.
pub open spec fn has_gpu_device(devices: Seq<ContainerDevices>, id: Seq<char>) -> bool {
    exists|d: int|
        0 <= d < devices.len() && (#[trigger] devices[d]).resource_name@ == "nvidia.com/gpu"@
            && texts(devices[d].device_ids@).contains(id)
}

proof fn lemma_owned_ids(m: OwnerMap, ids: Seq<Seq<char>>, owner: PodInfoView, id: Seq<char>)
    ensures
        ids.contains(id) ==> owned_ids(m, ids, owner).contains_key(id) && owned_ids(
            m,
            ids,
            owner,
        )[id] == owner,
        !ids.contains(id) ==> (owned_ids(m, ids, owner).contains_key(id) <==> m.contains_key(id)),
        !ids.contains(id) && m.contains_key(id) ==> owned_ids(m, ids, owner)[id] == m[id],
    decreases ids.len(),
{
    if ids.len() > 0 {
        lemma_owned_ids(m, ids.drop_last(), owner, id);
        if ids.contains(id) && ids.last() != id {
            let k = choose|k: int| 0 <= k < ids.len() && ids[k] == id;
            assert(ids.drop_last()[k] == id);
        }
        if !ids.contains(id) {
            assert(ids[ids.len() - 1] != id);
            if ids.drop_last().contains(id) {
                let k = choose|k: int| 0 <= k < ids.drop_last().len() && ids.drop_last()[k] == id;
                assert(ids[k] == id);
            }
        }
    }
}

proof fn lemma_owned_devices(
    m: OwnerMap,
    devices: Seq<ContainerDevices>,
    owner: PodInfoView,
    id: Seq<char>,
)
    ensures
        has_gpu_device(devices, id) ==> owned_devices(m, devices, owner).contains_key(id)
            && owned_devices(m, devices, owner)[id] == owner,
        !has_gpu_device(devices, id) ==> (owned_devices(m, devices, owner).contains_key(id)
            <==> m.contains_key(id)),
        !has_gpu_device(devices, id) && m.contains_key(id) ==> owned_devices(
            m,
            devices,
            owner,
        )[id] == m[id],
    decreases devices.len(),
{
    if devices.len() > 0 {
        let rest = devices.drop_last();
        let before = owned_devices(m, rest, owner);
        lemma_owned_devices(m, rest, owner, id);
        lemma_owned_ids(before, texts(devices.last().device_ids@), owner, id);
        let last_has = devices.last().resource_name@ == "nvidia.com/gpu"@ && texts(
            devices.last().device_ids@,
        ).contains(id);
        if last_has {
            assert(devices[devices.len() - 1] == devices.last());
        }
        if has_gpu_device(rest, id) {
            let d = choose|d: int|
                0 <= d < rest.len() && (#[trigger] rest[d]).resource_name@ == "nvidia.com/gpu"@
                    && texts(rest[d].device_ids@).contains(id);
            assert(devices[d] == rest[d]);
        }
        if has_gpu_device(devices, id) && !last_has {
            let d = choose|d: int|
                0 <= d < devices.len() && (#[trigger] devices[d]).resource_name@
                    == "nvidia.com/gpu"@ && texts(devices[d].device_ids@).contains(id);
            assert(d < rest.len());
            assert(rest[d] == devices[d]);
        }
    }
}

/// The names of a container of a pod.
pub open spec fn names_of(pods: Seq<PodResources>, p: int, c: int) -> PodInfoView {
    PodInfoView {
        pod: pods[p].name@,
        namespace: pods[p].namespace@,
        container: pods[p].containers@[c].name@,
    }
}

proof fn lemma_owned_containers(
    m: OwnerMap,
    containers: Seq<ContainerResources>,
    pod: Seq<char>,
    namespace: Seq<char>,
    id: Seq<char>,
) -> (c: int)
    ensures
        owned_containers(m, containers, pod, namespace).contains_key(id) ==> ({
            ||| 0 <= c < containers.len() && has_gpu_device(containers[c].devices@, id)
                && owned_containers(m, containers, pod, namespace)[id] == (PodInfoView {
                pod,
                namespace,
                container: containers[c].name@,
            })
            ||| m.contains_key(id) && owned_containers(m, containers, pod, namespace)[id] == m[id]
                && c == -1
        }),
        m.contains_key(id) ==> owned_containers(m, containers, pod, namespace).contains_key(id),
        (exists|k: int| 0 <= k < containers.len() && has_gpu_device(
            (#[trigger] containers[k]).devices@,
            id,
        )) ==> owned_containers(m, containers, pod, namespace).contains_key(id),
    decreases containers.len(),
{
    if containers.len() == 0 {
        -1
    } else {
        let rest = containers.drop_last();
        let before = owned_containers(m, rest, pod, namespace);
        let owner = PodInfoView { pod, namespace, container: containers.last().name@ };
        let c = lemma_owned_containers(m, rest, pod, namespace, id);
        lemma_owned_devices(before, containers.last().devices@, owner, id);
        if exists|k: int| 0 <= k < containers.len() && has_gpu_device(
            (#[trigger] containers[k]).devices@,
            id,
        ) {
            let k = choose|k: int| 0 <= k < containers.len() && has_gpu_device(
                (#[trigger] containers[k]).devices@,
                id,
            );
            if k < rest.len() {
                assert(rest[k] == containers[k]);
            }
        }
        if has_gpu_device(containers.last().devices@, id) {
            containers.len() - 1
        } else {
            if 0 <= c < rest.len() {
                assert(rest[c] == containers[c]);
            }
            c
        }
    }
}

proof fn lemma_owners(pods: Seq<PodResources>, id: Seq<char>) -> (w: (int, int))
    ensures
        owners_of(pods).contains_key(id) ==> has_gpu(pods, w.0, w.1, id) && owners_of(pods)[id]
            == names_of(pods, w.0, w.1),
        (exists|p: int, c: int| has_gpu(pods, p, c, id)) ==> owners_of(pods).contains_key(id),
    decreases pods.len(),
{
    if pods.len() == 0 {
        (0, 0)
    } else {
        let rest = pods.drop_last();
        let w = lemma_owners(rest, id);
        let last = pods.last();
        let c = lemma_owned_containers(
            owners_of(rest),
            last.containers@,
            last.name@,
            last.namespace@,
            id,
        );
        if exists|p: int, c: int| has_gpu(pods, p, c, id) {
            let (p, k) = choose|p: int, c: int| has_gpu(pods, p, c, id);
            if p < rest.len() {
                assert(rest[p] == pods[p]);
                assert(has_gpu(rest, p, k, id));
            } else {
                assert(has_gpu_device(last.containers@[k].devices@, id));
            }
        }
        if c >= 0 {
            (pods.len() - 1, c)
        } else {
            if has_gpu(rest, w.0, w.1, id) {
                assert(rest[w.0] == pods[w.0]);
            }
            w
        }
    }
}

/// A GPU has a container exactly where one that has it is listed, and then it is one
/// of those.
pub proof fn law_owner_is_listed(pods: Seq<PodResources>, id: Seq<char>)
    ensures
        owners_of(pods).contains_key(id) <==> exists|p: int, c: int| has_gpu(pods, p, c, id),
        owners_of(pods).contains_key(id) ==> exists|p: int, c: int|
            #[trigger] has_gpu(pods, p, c, id) && owners_of(pods)[id] == names_of(pods, p, c),
{
    let w = lemma_owners(pods, id);
}

// ---------------------------------------------------------------------------
// Asking again and again
// ---------------------------------------------------------------------------
/// The socket on which the kubelet answers.
pub const KUBELET_SOCKET: &'static str = "/var/lib/kubelet/pod-resources/kubelet.sock";

/// How long to wait before the kubelet is asked again, in seconds.
pub const REFRESH_SECS: u64 = 10;

/// What became of asking the kubelet.
#[derive(Debug)]
pub enum RefreshEvent {
    /// There is no socket.
    NoSocket,
    /// The pods were listed.
    Listed(Vec<PodResources>),
    /// The pods could not be listed.
    ListFailed,
    /// The kubelet could not be reached.
    ConnectFailed,
}

/// What is done next.
#[derive(Clone, Copy, Debug, PartialEq, Eq, Structural)]
pub enum RefreshAction {
    /// The kubelet is not asked again.
    Stop,
    /// The kubelet is asked again after that many seconds.
    AskAfter(u64),
}

/// What is known of the containers of GPUs after an event, and what is done next.
pub open spec fn refreshed(owners: OwnerMap, event: RefreshEvent) -> (OwnerMap, RefreshAction) {
    match event {
        RefreshEvent::NoSocket => (owners, RefreshAction::Stop),
        RefreshEvent::Listed(pods) => (owners_of(pods@), RefreshAction::AskAfter(REFRESH_SECS)),
        _ => (owners, RefreshAction::AskAfter(REFRESH_SECS)),
    }
}

/// Keeps a mapper up to date.
#[derive(Debug)]
pub struct PodResourcesRefresher {
    mapper: PodResourcesMapper,
}

impl PodResourcesRefresher {
    /// What is known of the containers of GPUs.
    pub closed spec fn owners(&self) -> OwnerMap {
        self.mapper@
    }

    /// Keeps `mapper` up to date.
    pub fn new(mapper: PodResourcesMapper) -> (r: PodResourcesRefresher)
        ensures
            r.owners() == mapper@,
    {
        PodResourcesRefresher { mapper }
    }

    /// The mapper.
    pub fn mapper(&self) -> (r: &PodResourcesMapper)
        ensures
            r@ == self.owners(),
    {
        &self.mapper
    }

    /// Takes over what the kubelet listed. What is known stays where it could not be
    /// asked.
    pub fn run_step(&mut self, event: RefreshEvent) -> (r: RefreshAction)
        ensures
            match event {
                RefreshEvent::Listed(pods) => final(self).owners() == owners_of(pods@),
                _ => final(self).owners() == old(self).owners(),
            },
            r == if event is NoSocket {
                RefreshAction::Stop
            } else {
                RefreshAction::AskAfter(REFRESH_SECS)
            },
            (final(self).owners(), r) == refreshed(old(self).owners(), event),
    {
        match event {
            RefreshEvent::NoSocket => RefreshAction::Stop,
            RefreshEvent::Listed(pods) => {
                let owners = gpu_owners(&pods);
                self.mapper.update(&owners);
                RefreshAction::AskAfter(REFRESH_SECS)
            },
            _ => RefreshAction::AskAfter(REFRESH_SECS),
        }
    }
}

proof fn lemma_last_container(
    m: OwnerMap,
    containers: Seq<ContainerResources>,
    pod: Seq<char>,
    namespace: Seq<char>,
    id: Seq<char>,
    c: int,
)
    ensures
        0 <= c < containers.len() && has_gpu_device(containers[c].devices@, id) && (forall|k: int|
            c < k < containers.len() ==> !has_gpu_device((#[trigger] containers[k]).devices@, id))
            ==> owned_containers(m, containers, pod, namespace).contains_key(id)
            && owned_containers(m, containers, pod, namespace)[id] == (PodInfoView {
            pod,
            namespace,
            container: containers[c].name@,
        }),
        (forall|k: int|
            0 <= k < containers.len() ==> !has_gpu_device((#[trigger] containers[k]).devices@, id))
            ==> (owned_containers(m, containers, pod, namespace).contains_key(id)
            <==> m.contains_key(id)) && (m.contains_key(id) ==> owned_containers(
            m,
            containers,
            pod,
            namespace,
        )[id] == m[id]),
    decreases containers.len(),
{
    if containers.len() > 0 {
        let rest = containers.drop_last();
        let before = owned_containers(m, rest, pod, namespace);
        let owner = PodInfoView { pod, namespace, container: containers.last().name@ };
        assert(forall|k: int| 0 <= k < rest.len() ==> rest[k] == containers[k]);
        assert(containers.last() == containers[containers.len() - 1]);
        lemma_last_container(m, rest, pod, namespace, id, c);
        lemma_owned_devices(before, containers.last().devices@, owner, id);
    }
}

/// Of several containers that have one GPU, the last one listed counts.
pub proof fn law_last_container_counts(pods: Seq<PodResources>, p: int, c: int, id: Seq<char>)
    requires
        has_gpu(pods, p, c, id),
        forall|q: int, d: int|
            q > p || (q == p && d > c) ==> !(#[trigger] has_gpu(pods, q, d, id)),
    ensures
        owners_of(pods).contains_key(id),
        owners_of(pods)[id].pod == pods[p].name@,
        owners_of(pods)[id].namespace == pods[p].namespace@,
        owners_of(pods)[id].container == pods[p].containers@[c].name@,
    decreases pods.len(),
{
    let rest = pods.drop_last();
    let last = pods.last();
    let n = pods.len() - 1;
    if p == n {
        assert forall|k: int| c < k < last.containers@.len() implies !has_gpu_device(
            (#[trigger] last.containers@[k]).devices@,
            id,
        ) by {
            assert(!has_gpu(pods, n, k, id));
        }
        lemma_last_container(
            owners_of(rest),
            last.containers@,
            last.name@,
            last.namespace@,
            id,
            c,
        );
    } else {
        assert forall|k: int| 0 <= k < last.containers@.len() implies !has_gpu_device(
            (#[trigger] last.containers@[k]).devices@,
            id,
        ) by {
            assert(!has_gpu(pods, n, k, id));
        }
        assert(has_gpu(rest, p, c, id));
        assert forall|q: int, d: int|
            q > p || (q == p && d > c) implies !(#[trigger] has_gpu(rest, q, d, id)) by {
            if has_gpu(rest, q, d, id) {
                assert(has_gpu(pods, q, d, id));
            }
        }
        law_last_container_counts(rest, p, c, id);
        lemma_last_container(
            owners_of(rest),
            last.containers@,
            last.name@,
            last.namespace@,
            id,
            c,
        );
    }
}

/// What was listed takes the place of all that was known, and what is known stays where
/// nothing could be listed; the kubelet is asked again after ten seconds, and not at
/// all where it has no socket.
pub proof fn law_listing_takes_the_place_of_all(
    before: OwnerMap,
    other: OwnerMap,
    event: RefreshEvent,
)
    ensures
        event is Listed ==> refreshed(before, event) == refreshed(other, event),
        event is Listed ==> refreshed(before, event).0 == owners_of(event->Listed_0@),
        event !is Listed ==> refreshed(before, event).0 == before,
        event is NoSocket ==> refreshed(before, event).1 is Stop,
        event !is NoSocket ==> refreshed(before, event).1 == RefreshAction::AskAfter(10),
{
}

} // verus!

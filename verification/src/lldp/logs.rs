//! The events that tell of interfaces and links of this machine.
use vstd::prelude::*;

use super::ffi::{
    interface_views, neighbor_views, InterfaceView, LldpInterface, LldpNeighbor, NeighborView,
};
use crate::clock::{now, Timestamp};
use crate::log::{lemma_log_views_push, log_views, LogEvent, LogView, Value, ValueView};
use crate::schema::{FieldKind, SourceOutput};
use crate::snmp::config::topology_fields;
use crate::text::copy;

verus! {

// ---------------------------------------------------------------------------
// Configuration
// ---------------------------------------------------------------------------
/// How often interfaces and links are looked at, in seconds.
#[derive(Clone, Copy, Debug)]
pub struct LldpMetricsConfig {
    /// How often interfaces are looked at.
    pub interface_scrape_secs: u64,
    /// How often links are looked at.
    pub link_scrape_secs: u64,
}

/// How often interfaces are looked at, where nothing is configured.
pub fn default_interface_scrape_interval() -> (r: u64)
    ensures
        r == 30,
{
    30
}

/// How often links are looked at, where nothing is configured.
pub fn default_link_scrape_interval() -> (r: u64)
    ensures
        r == 60,
{
    60
}

impl Default for LldpMetricsConfig {
    fn default() -> (r: LldpMetricsConfig)
        ensures
            r.interface_scrape_secs == 0,
            r.link_scrape_secs == 0,
    {
        LldpMetricsConfig { interface_scrape_secs: 0, link_scrape_secs: 0 }
    }
}

/// That a configuration is made of these settings.
pub open spec fn settled(
    c: LldpMetricsConfig,
    interface_secs: Option<u64>,
    link_secs: Option<u64>,
) -> bool {
    &&& interface_secs matches Some(n) ==> c.interface_scrape_secs == n
    &&& interface_secs is None ==> c.interface_scrape_secs == 30
    &&& link_secs matches Some(n) ==> c.link_scrape_secs == n
    &&& link_secs is None ==> c.link_scrape_secs == 60
}

/// That a machine stands where its environment says.
pub open spec fn placed(c: Config, node_name: Option<String>, cluster_name: Option<String>) -> bool {
    &&& c.node_name@ == text_or(node_name, "unknown-node"@)
    &&& c.cluster@ == text_or(cluster_name, "unknown-cluster"@)
}

impl LldpMetricsConfig {
    /// The configuration, where some of it may be left out.
    pub fn from_settings(interface_scrape_secs: Option<u64>, link_scrape_secs: Option<u64>) -> (r:
        LldpMetricsConfig)
        ensures
            r.interface_scrape_secs == (match interface_scrape_secs {
                Some(n) => n,
                None => 30,
            }),
            r.link_scrape_secs == (match link_scrape_secs {
                Some(n) => n,
                None => 60,
            }),
            settled(r, interface_scrape_secs, link_scrape_secs),
    {
        LldpMetricsConfig {
            interface_scrape_secs: match interface_scrape_secs {
                Some(n) => n,
                None => default_interface_scrape_interval(),
            },
            link_scrape_secs: match link_scrape_secs {
                Some(n) => n,
                None => default_link_scrape_interval(),
            },
        }
    }

    /// What the source puts out.
    pub fn outputs(&self) -> (r: Vec<SourceOutput>)
        ensures
            r@.len() == 1,
            r@[0].data_type is Log,
            r@[0].field_views() == topology_fields(),
    {
        let o = SourceOutput::logs().with_event_field(
            "timestamp",
            FieldKind::Timestamp,
            "Time when the event was observed",
        ).with_event_field("cluster", FieldKind::Bytes, "Cluster identifier").with_event_field(
            "device",
            FieldKind::Bytes,
            "Device name",
        ).with_event_field("interface", FieldKind::Bytes, "Interface name").with_event_field(
            "interface_normalized",
            FieldKind::Bytes,
            "Normalized interface name",
        ).with_event_field(
            "out_band_ip",
            FieldKind::Bytes,
            "Out-of-band IP address",
        ).with_event_field(
            "type",
            FieldKind::Bytes,
            "Device type (leaf/spine/node)",
        ).with_event_field(
            "from_device",
            FieldKind::Bytes,
            "Source device in connection",
        ).with_event_field(
            "from_interface",
            FieldKind::Bytes,
            "Source interface in connection",
        ).with_event_field(
            "from_interface_normalized",
            FieldKind::Bytes,
            "Normalized source interface name",
        ).with_event_field(
            "to_device",
            FieldKind::Bytes,
            "Destination device in connection",
        ).with_event_field(
            "to_interface",
            FieldKind::Bytes,
            "Destination interface in connection",
        ).with_event_field(
            "to_interface_normalized",
            FieldKind::Bytes,
            "Normalized destination interface name",
        ).with_event_field(
            "log_type",
            FieldKind::Bytes,
            "Type of log: interface or link",
        ).with_event_field("level", FieldKind::Bytes, "Connection level");
        assert(o.field_views() =~= topology_fields());
        let mut r: Vec<SourceOutput> = Vec::new();
        r.push(o);
        r
    }

    /// Whether delivery is confirmed: it is not.
    pub fn can_acknowledge(&self) -> (r: bool)
        ensures
            !r,
    {
        false
    }
}

/// Where this machine stands.
#[derive(Clone, Debug)]
pub struct Config {
    /// The machine's name.
    pub node_name: String,
    /// Its cluster.
    pub cluster: String,
}

/// A setting, or what is taken in its place.
pub open spec fn text_or(s: Option<String>, other: Seq<char>) -> Seq<char> {
    match s {
        Some(t) => t@,
        None => other,
    }
}

fn setting_or(s: Option<String>, other: &str) -> (r: String)
    ensures
        r@ == text_or(s, other@),
{
    match s {
        Some(t) => t,
        None => copy(other),
    }
}

impl Config {
    /// Where this machine stands, as `NODE_NAME` and `CLUSTER_NAME` of the environment
    /// say.
    pub fn from_environment(node_name: Option<String>, cluster_name: Option<String>) -> (r: Config)
        ensures
            r.node_name@ == text_or(node_name, "unknown-node"@),
            r.cluster@ == text_or(cluster_name, "unknown-cluster"@),
            placed(r, node_name, cluster_name),
    {
        Config {
            node_name: setting_or(node_name, "unknown-node"),
            cluster: setting_or(cluster_name, "unknown-cluster"),
        }
    }
}

/// The address of this machine, as `VECTOR_SELF_POD_HOSTIP` of the environment says.
pub fn host_ip(value: Option<String>) -> (r: String)
    ensures
        r@ == text_or(value, "unknown"@),
{
    setting_or(value, "unknown")
}

/// The name that stands for a port: its own.
pub fn normalize_port_name(port: &str) -> (r: String)
    ensures
        r@ == port@,
{
    copy(port)
}

// ---------------------------------------------------------------------------
// Events
// ---------------------------------------------------------------------------
/// The event that tells of an interface of this machine.
pub open spec fn own_interface_log(
    ts: Timestamp,
    cluster: Seq<char>,
    ip: Seq<char>,
    i: InterfaceView,
) -> LogView {
    Map::<Seq<char>, ValueView>::empty().insert("timestamp"@, ValueView::Timestamp(ts)).insert(
        "cluster"@,
        ValueView::Text(cluster),
    ).insert("device"@, ValueView::Text(i.1)).insert("interface"@, ValueView::Text(i.0)).insert(
        "interface_normalized"@,
        ValueView::Text(i.0),
    ).insert("out_band_ip"@, ValueView::Text(ip)).insert("type"@, ValueView::Integer(0)).insert(
        "log_type"@,
        ValueView::Text("interface"@),
    )
}

/// The event that tells of the interface at the other end of a link.
pub open spec fn remote_interface_log(
    ts: Timestamp,
    cluster: Seq<char>,
    ip: Seq<char>,
    n: NeighborView,
) -> LogView {
    Map::<Seq<char>, ValueView>::empty().insert("timestamp"@, ValueView::Timestamp(ts)).insert(
        "cluster"@,
        ValueView::Text(cluster),
    ).insert("device"@, ValueView::Text(n.remote_device)).insert(
        "interface"@,
        ValueView::Text(n.remote_port),
    ).insert("interface_normalized"@, ValueView::Text(n.remote_port)).insert(
        "log_type"@,
        ValueView::Text("interface"@),
    ).insert("out_band_ip"@, ValueView::Text(ip)).insert("type"@, ValueView::Integer(0))
}

/// The event that tells of a link.
pub open spec fn link_log(ts: Timestamp, cluster: Seq<char>, n: NeighborView) -> LogView {
    Map::<Seq<char>, ValueView>::empty().insert("timestamp"@, ValueView::Timestamp(ts)).insert(
        "cluster"@,
        ValueView::Text(cluster),
    ).insert("level"@, ValueView::Integer(0)).insert(
        "from_device"@,
        ValueView::Text(n.local_device),
    ).insert("from_interface"@, ValueView::Text(n.local_interface)).insert(
        "from_interface_normalized"@,
        ValueView::Text(n.local_interface),
    ).insert("to_device"@, ValueView::Text(n.remote_device)).insert(
        "to_interface"@,
        ValueView::Text(n.remote_port),
    ).insert("to_interface_normalized"@, ValueView::Text(n.remote_port)).insert(
        "log_type"@,
        ValueView::Text("link"@),
    )
}

/// The events that tell of interfaces observed at one moment.
pub open spec fn own_interface_logs(
    ts: Timestamp,
    cluster: Seq<char>,
    ip: Seq<char>,
    interfaces: Seq<InterfaceView>,
) -> Seq<LogView> {
    interfaces.map_values(|i: InterfaceView| own_interface_log(ts, cluster, ip, i))
}

/// The events that tell of the other ends of links, each observed at its moment.
pub open spec fn remote_interface_logs(
    ts: Seq<Timestamp>,
    cluster: Seq<char>,
    ip: Seq<char>,
    neighbors: Seq<NeighborView>,
) -> Seq<LogView> {
    Seq::new(neighbors.len(), |i: int| remote_interface_log(ts[i], cluster, ip, neighbors[i]))
}

/// The events that tell of links, each observed at its moment.
pub open spec fn link_logs(
    ts: Seq<Timestamp>,
    cluster: Seq<char>,
    neighbors: Seq<NeighborView>,
) -> Seq<LogView> {
    Seq::new(neighbors.len(), |i: int| link_log(ts[i], cluster, neighbors[i]))
}

fn own_interface_event(ts: Timestamp, config: &Config, node_ip: &str, i: &LldpInterface) -> (r:
    LogEvent)
    ensures
        r@ == own_interface_log(ts, config.cluster@, node_ip@, i@),
{
    let normalized = normalize_port_name(i.name.as_str());
    let mut log = LogEvent::new();
    log.insert("timestamp", Value::Timestamp(ts));
    log.insert_text("cluster", config.cluster.as_str());
    log.insert_text("device", i.device_name.as_str());
    log.insert_text("interface", i.name.as_str());
    log.insert_text("interface_normalized", normalized.as_str());
    log.insert_text("out_band_ip", node_ip);
    log.insert("type", Value::Integer(0));
    log.insert_text("log_type", "interface");
    log
}

fn remote_interface_event(ts: Timestamp, config: &Config, node_ip: &str, n: &LldpNeighbor) -> (r:
    LogEvent)
    ensures
        r@ == remote_interface_log(ts, config.cluster@, node_ip@, n@),
{
    let normalized = normalize_port_name(n.remote_port.as_str());
    let mut log = LogEvent::new();
    log.insert("timestamp", Value::Timestamp(ts));
    log.insert_text("cluster", config.cluster.as_str());
    log.insert_text("device", n.remote_device.as_str());
    log.insert_text("interface", n.remote_port.as_str());
    log.insert_text("interface_normalized", normalized.as_str());
    log.insert_text("log_type", "interface");
    log.insert_text("out_band_ip", node_ip);
    log.insert("type", Value::Integer(0));
    log
}

fn link_event(ts: Timestamp, config: &Config, n: &LldpNeighbor) -> (r: LogEvent)
    ensures
        r@ == link_log(ts, config.cluster@, n@),
{
    let from_normalized = normalize_port_name(n.local_interface.as_str());
    let to_normalized = normalize_port_name(n.remote_port.as_str());
    let mut log = LogEvent::new();
    log.insert("timestamp", Value::Timestamp(ts));
    log.insert_text("cluster", config.cluster.as_str());
    log.insert("level", Value::Integer(0));
    log.insert_text("from_device", n.local_device.as_str());
    log.insert_text("from_interface", n.local_interface.as_str());
    log.insert_text("from_interface_normalized", from_normalized.as_str());
    log.insert_text("to_device", n.remote_device.as_str());
    log.insert_text("to_interface", n.remote_port.as_str());
    log.insert_text("to_interface_normalized", to_normalized.as_str());
    log.insert_text("log_type", "link");
    log
}

/// The events that tell of interfaces of this machine, observed at `ts`.
pub fn map_interfaces_to_logs_at(
    ts: Timestamp,
    interfaces: &Vec<LldpInterface>,
    config: &Config,
    node_ip: &str,
) -> (r: Vec<LogEvent>)
    ensures
        log_views(r@) == own_interface_logs(
            ts,
            config.cluster@,
            node_ip@,
            interface_views(interfaces@),
        ),
{
    let ghost want = own_interface_logs(
        ts,
        config.cluster@,
        node_ip@,
        interface_views(interfaces@),
    );
    let mut logs: Vec<LogEvent> = Vec::new();
    let n: usize = interfaces.len();
    let mut i: usize = 0;
    assert(log_views(logs@) =~= want.take(0));
    while i < n
        invariant
            n == interfaces@.len(),
            i <= n,
            want == own_interface_logs(
                ts,
                config.cluster@,
                node_ip@,
                interface_views(interfaces@),
            ),
            log_views(logs@) == want.take(i as int),
        decreases n - i,
    {
        let log = own_interface_event(ts, config, node_ip, &interfaces[i]);
        proof {
            lemma_log_views_push(logs@, log);
            assert(interface_views(interfaces@)[i as int] == interfaces@[i as int]@);
            assert(want.take(i + 1) =~= want.take(i as int).push(log@));
        }
        logs.push(log);
        i = i + 1;
    }
    assert(want.take(n as int) =~= want);
    logs
}

/// The events that tell of interfaces of this machine, observed now.
pub fn map_interfaces_to_logs(interfaces: &Vec<LldpInterface>, config: &Config, node_ip: &str) -> (r:
    Vec<LogEvent>)
    ensures
        exists|ts: Timestamp|
            log_views(r@) == #[trigger] own_interface_logs(
                ts,
                config.cluster@,
                node_ip@,
                interface_views(interfaces@),
            ),
{
    let ts = now();
    map_interfaces_to_logs_at(ts, interfaces, config, node_ip)
}

/// The events that tell of links and of their other ends, each link observed at its
/// moment in `ts`.
pub fn map_neighbors_to_interface_and_link_logs_at(
    ts: &Vec<Timestamp>,
    neighbors: &Vec<LldpNeighbor>,
    config: &Config,
    node_ip: &str,
) -> (r: (Vec<LogEvent>, Vec<LogEvent>))
    requires
        ts@.len() == neighbors@.len(),
    ensures
        log_views(r.0@) == remote_interface_logs(
            ts@,
            config.cluster@,
            node_ip@,
            neighbor_views(neighbors@),
        ),
        log_views(r.1@) == link_logs(ts@, config.cluster@, neighbor_views(neighbors@)),
{
    let ghost nv = neighbor_views(neighbors@);
    let ghost ends = remote_interface_logs(ts@, config.cluster@, node_ip@, nv);
    let ghost links = link_logs(ts@, config.cluster@, nv);
    let mut interface_logs: Vec<LogEvent> = Vec::new();
    let mut link_events: Vec<LogEvent> = Vec::new();
    let n: usize = neighbors.len();
    let mut i: usize = 0;
    assert(log_views(interface_logs@) =~= ends.take(0));
    assert(log_views(link_events@) =~= links.take(0));
    while i < n
        invariant
            n == neighbors@.len(),
            n == ts@.len(),
            i <= n,
            nv == neighbor_views(neighbors@),
            ends == remote_interface_logs(ts@, config.cluster@, node_ip@, nv),
            links == link_logs(ts@, config.cluster@, nv),
            log_views(interface_logs@) == ends.take(i as int),
            log_views(link_events@) == links.take(i as int),
        decreases n - i,
    {
        let end = remote_interface_event(ts[i], config, node_ip, &neighbors[i]);
        let link = link_event(ts[i], config, &neighbors[i]);
        proof {
            lemma_log_views_push(interface_logs@, end);
            lemma_log_views_push(link_events@, link);
            assert(nv[i as int] == neighbors@[i as int]@);
            assert(ends.take(i + 1) =~= ends.take(i as int).push(end@));
            assert(links.take(i + 1) =~= links.take(i as int).push(link@));
        }
        interface_logs.push(end);
        link_events.push(link);
        i = i + 1;
    }
    assert(ends.take(n as int) =~= ends);
    assert(links.take(n as int) =~= links);
    (interface_logs, link_events)
}

/// The events tell of these links, observed at these moments.
pub open spec fn tells_of_links(
    r: (Vec<LogEvent>, Vec<LogEvent>),
    ts: Seq<Timestamp>,
    neighbors: Seq<NeighborView>,
    cluster: Seq<char>,
    ip: Seq<char>,
) -> bool {
    &&& ts.len() == neighbors.len()
    &&& log_views(r.0@) == remote_interface_logs(ts, cluster, ip, neighbors)
    &&& log_views(r.1@) == link_logs(ts, cluster, neighbors)
}

/// The events that tell of links and of their other ends, observed now.
pub fn map_neighbors_to_interface_and_link_logs(
    neighbors: &Vec<LldpNeighbor>,
    config: &Config,
    node_ip: &str,
) -> (r: (Vec<LogEvent>, Vec<LogEvent>))
    ensures
        exists|ts: Seq<Timestamp>| #[trigger]
            tells_of_links(r, ts, neighbor_views(neighbors@), config.cluster@, node_ip@),
{
    let mut ts: Vec<Timestamp> = Vec::new();
    let n: usize = neighbors.len();
    while ts.len() < n
        invariant
            ts@.len() <= n,
        decreases n - ts@.len(),
    {
        ts.push(now());
    }
    let r = map_neighbors_to_interface_and_link_logs_at(&ts, neighbors, config, node_ip);
    assert(tells_of_links(r, ts@, neighbor_views(neighbors@), config.cluster@, node_ip@));
    r
}

/// Every link is told of by one event, and its other end by another one that names
/// the same device and interface at the same moment.
pub proof fn law_each_link_has_two_events(
    ts: Seq<Timestamp>,
    cluster: Seq<char>,
    ip: Seq<char>,
    neighbors: Seq<NeighborView>,
    k: int,
)
    requires
        ts.len() == neighbors.len(),
        0 <= k < neighbors.len(),
    ensures
        remote_interface_logs(ts, cluster, ip, neighbors).len() == neighbors.len(),
        link_logs(ts, cluster, neighbors).len() == neighbors.len(),
        ({
            let end = remote_interface_logs(ts, cluster, ip, neighbors)[k];
            let link = link_logs(ts, cluster, neighbors)[k];
            &&& end["device"@] == link["to_device"@]
            &&& end["interface"@] == link["to_interface"@]
            &&& end["timestamp"@] == link["timestamp"@]
            &&& end["cluster"@] == link["cluster"@]
        }),
{
    reveal_strlit("timestamp");
    reveal_strlit("cluster");
    reveal_strlit("device");
    reveal_strlit("interface");
    reveal_strlit("interface_normalized");
    reveal_strlit("log_type");
    reveal_strlit("out_band_ip");
    reveal_strlit("type");
    reveal_strlit("level");
    reveal_strlit("from_device");
    reveal_strlit("from_interface");
    reveal_strlit("from_interface_normalized");
    reveal_strlit("to_device");
    reveal_strlit("to_interface");
    reveal_strlit("to_interface_normalized");
    assert("timestamp"@.len() == 9 && "to_device"@.len() == 9 && "interface"@.len() == 9);
    assert("timestamp"@[1] == 'i' && "to_device"@[1] == 'o' && "interface"@[1] == 'n');
    assert("cluster"@.len() == 7 && "device"@.len() == 6 && "type"@.len() == 4);
    assert("from_device"@.len() == 11 && "out_band_ip"@.len() == 11 && "level"@.len() == 5);
    assert("log_type"@.len() == 8 && "to_interface"@.len() == 12);
}

// ---------------------------------------------------------------------------
// What the events tell
// ---------------------------------------------------------------------------
proof fn lemma_field_names()
    ensures
        "timestamp"@.len() == 9 && "timestamp"@[0] == 't' && "timestamp"@[1] == 'i',
        "cluster"@.len() == 7,
        "device"@.len() == 6,
        "interface"@.len() == 9 && "interface"@[0] == 'i',
        "interface_normalized"@.len() == 20,
        "out_band_ip"@.len() == 11 && "out_band_ip"@[0] == 'o',
        "type"@.len() == 4,
        "log_type"@.len() == 8,
        "level"@.len() == 5,
        "from_device"@.len() == 11 && "from_device"@[0] == 'f',
        "from_interface"@.len() == 14,
        "from_interface_normalized"@.len() == 25,
        "to_device"@.len() == 9 && "to_device"@[0] == 't' && "to_device"@[1] == 'o',
        "to_interface"@.len() == 12,
        "to_interface_normalized"@.len() == 23,
{
    reveal_strlit("timestamp");
    reveal_strlit("cluster");
    reveal_strlit("device");
    reveal_strlit("interface");
    reveal_strlit("interface_normalized");
    reveal_strlit("out_band_ip");
    reveal_strlit("type");
    reveal_strlit("log_type");
    reveal_strlit("level");
    reveal_strlit("from_device");
    reveal_strlit("from_interface");
    reveal_strlit("from_interface_normalized");
    reveal_strlit("to_device");
    reveal_strlit("to_interface");
    reveal_strlit("to_interface_normalized");
}

/// The field holds the text.
pub open spec fn told_as(log: LogView, key: Seq<char>, text: Seq<char>) -> bool {
    log.contains_key(key) && log[key] == ValueView::Text(text)
}

/// The event tells of an interface of a device, with the moment, the cluster and the
/// address, and has no field besides.
pub open spec fn tells_interface(
    log: LogView,
    ts: Timestamp,
    cluster: Seq<char>,
    ip: Seq<char>,
    device: Seq<char>,
    interface: Seq<char>,
) -> bool {
    &&& log.contains_key("timestamp"@) && log["timestamp"@] == ValueView::Timestamp(ts)
    &&& told_as(log, "cluster"@, cluster)
    &&& told_as(log, "device"@, device)
    &&& told_as(log, "interface"@, interface)
    &&& told_as(log, "interface_normalized"@, interface)
    &&& told_as(log, "out_band_ip"@, ip)
    &&& log.contains_key("type"@) && log["type"@] == ValueView::Integer(0)
    &&& told_as(log, "log_type"@, "interface"@)
    &&& forall|k: Seq<char>| #[trigger]
        log.contains_key(k) ==> k == "timestamp"@ || k == "cluster"@ || k == "device"@ || k
            == "interface"@ || k == "interface_normalized"@ || k == "out_band_ip"@ || k == "type"@
            || k == "log_type"@
}

/// There is one event for each interface of this machine, in their order, which tells
/// the interface and the machine.
pub proof fn law_own_interfaces_are_told(
    ts: Timestamp,
    cluster: Seq<char>,
    ip: Seq<char>,
    interfaces: Seq<InterfaceView>,
    k: int,
)
    ensures
        own_interface_logs(ts, cluster, ip, interfaces).len() == interfaces.len(),
        0 <= k < interfaces.len() ==> tells_interface(
            own_interface_logs(ts, cluster, ip, interfaces)[k],
            ts,
            cluster,
            ip,
            interfaces[k].1,
            interfaces[k].0,
        ),
{
    lemma_field_names();
}

/// There is one event for the other end of each link, in their order, which tells the
/// device and the port there, at the moment of the link.
pub proof fn law_other_ends_are_told(
    ts: Seq<Timestamp>,
    cluster: Seq<char>,
    ip: Seq<char>,
    neighbors: Seq<NeighborView>,
    k: int,
)
    requires
        ts.len() == neighbors.len(),
        0 <= k < neighbors.len(),
    ensures
        tells_interface(
            remote_interface_logs(ts, cluster, ip, neighbors)[k],
            ts[k],
            cluster,
            ip,
            neighbors[k].remote_device,
            neighbors[k].remote_port,
        ),
{
    lemma_field_names();
}

/// There is one event for each link, in their order, from this machine to the device
/// at the other end.
pub proof fn law_links_are_told(
    ts: Seq<Timestamp>,
    cluster: Seq<char>,
    neighbors: Seq<NeighborView>,
    k: int,
)
    requires
        ts.len() == neighbors.len(),
        0 <= k < neighbors.len(),
    ensures
        ({
            let log = link_logs(ts, cluster, neighbors)[k];
            let n = neighbors[k];
            &&& log.contains_key("timestamp"@) && log["timestamp"@] == ValueView::Timestamp(ts[k])
            &&& told_as(log, "cluster"@, cluster)
            &&& log.contains_key("level"@) && log["level"@] == ValueView::Integer(0)
            &&& told_as(log, "from_device"@, n.local_device)
            &&& told_as(log, "from_interface"@, n.local_interface)
            &&& told_as(log, "from_interface_normalized"@, n.local_interface)
            &&& told_as(log, "to_device"@, n.remote_device)
            &&& told_as(log, "to_interface"@, n.remote_port)
            &&& told_as(log, "to_interface_normalized"@, n.remote_port)
            &&& told_as(log, "log_type"@, "link"@)
            &&& forall|x: Seq<char>| #[trigger]
                log.contains_key(x) ==> x == "timestamp"@ || x == "cluster"@ || x == "level"@ || x
                    == "from_device"@ || x == "from_interface"@ || x == "from_interface_normalized"@
                    || x == "to_device"@ || x == "to_interface"@ || x == "to_interface_normalized"@
                    || x == "log_type"@
        }),
{
    lemma_field_names();
}

/// A setting counts where it is there, whatever it is, and else what stands for it.
pub proof fn law_settings_count_where_they_are(s: String, other: Seq<char>)
    ensures
        text_or(Some(s), other) == s@,
        text_or(None, other) == other,
{
}

/// A configured time counts, and where none is configured interfaces are asked for every
/// half minute and links every minute.
pub proof fn law_links_are_asked_for_half_as_often(c: LldpMetricsConfig, a: u64, b: u64)
    ensures
        settled(c, Some(a), Some(b)) ==> c.interface_scrape_secs == a && c.link_scrape_secs == b,
        settled(c, None, None) ==> c.interface_scrape_secs == 30 && c.link_scrape_secs == 60,
        settled(c, Some(a), None) ==> c.interface_scrape_secs == a && c.link_scrape_secs == 60,
        settled(c, None, Some(b)) ==> c.interface_scrape_secs == 30 && c.link_scrape_secs == b,
{
}

/// The name of the machine and that of its cluster are those that the environment gives,
/// each under its own name.
pub proof fn law_environment_names_the_machine(c: Config, node: String, cluster: String)
    ensures
        placed(c, Some(node), Some(cluster)) ==> c.node_name@ == node@ && c.cluster@ == cluster@,
        placed(c, None, Some(cluster)) ==> c.node_name@ == "unknown-node"@ && c.cluster@ == cluster@,
        placed(c, Some(node), None) ==> c.node_name@ == node@ && c.cluster@ == "unknown-cluster"@,
{
}

/// Both events of a link are told for every link, at the moment of the link, in the order
/// of the links.
pub proof fn law_links_and_other_ends_are_told_together(
    r: (Vec<LogEvent>, Vec<LogEvent>),
    ts: Seq<Timestamp>,
    neighbors: Seq<NeighborView>,
    cluster: Seq<char>,
    ip: Seq<char>,
    k: int,
)
    requires
        tells_of_links(r, ts, neighbors, cluster, ip),
    ensures
        r.0@.len() == neighbors.len(),
        r.1@.len() == neighbors.len(),
        0 <= k < neighbors.len() ==> tells_interface(
            r.0@[k]@,
            ts[k],
            cluster,
            ip,
            neighbors[k].remote_device,
            neighbors[k].remote_port,
        ),
        0 <= k < neighbors.len() ==> told_as(r.1@[k]@, "from_device"@, neighbors[k].local_device)
            && told_as(r.1@[k]@, "to_device"@, neighbors[k].remote_device) && r.1@[k]@["timestamp"@]
            == ValueView::Timestamp(ts[k]),
{
    assert(log_views(r.0@).len() == r.0@.len());
    assert(log_views(r.1@).len() == r.1@.len());
    if 0 <= k < neighbors.len() {
        law_other_ends_are_told(ts, cluster, ip, neighbors, k);
        law_links_are_told(ts, cluster, neighbors, k);
        assert(log_views(r.0@)[k] == r.0@[k]@);
        assert(log_views(r.1@)[k] == r.1@[k]@);
    }
}

} // verus!

//! Interfaces and neighbors of switches, and the events that tell of them.
use vstd::prelude::*;

use super::parse::{answer_text, parse_snmp_value, parse_walk, walk_of};
use super::transport::{asks, snmp_get, snmpwalk, SnmpCommand, SnmpTransport, TransportView};
use crate::clock::{now, Timestamp};
use crate::log::{lemma_log_views_push, log_views, LogEvent, LogView, Value, ValueView};
use crate::split::{lines_of, pieces, split_char};
use crate::table::{text_map, text_rows, TextMap};
use crate::text::{
    contains, copy, has_text, lowered, starts_with, to_ascii_lowercase, to_ascii_uppercase,
    uppered,
};

verus! {

// ---------------------------------------------------------------------------
// Targets
// ---------------------------------------------------------------------------
/// Who made a switch.
#[derive(Clone, Copy, Debug, PartialEq, Eq, Structural)]
pub enum Vendor {
    /// CNIT.
    CNIT,
    /// H3C.
    H3C,
    /// Huawei.
    Huawei,
    /// Someone else.
    Unknown,
}

/// A switch to ask.
#[derive(Clone, Debug)]
pub struct Target {
    /// Its address.
    pub ip: String,
    /// Who made it.
    pub vendor: Vendor,
}

/// The OID of a device's description.
pub const SYS_DESCR: &'static str = "1.3.6.1.2.1.1.1.0";

/// The OID of a device's name.
pub const SYS_NAME: &'static str = "1.3.6.1.2.1.1.5.0";

/// The OID of the descriptions of a device's interfaces.
pub const IF_DESCR: &'static str = "1.3.6.1.2.1.2.2.1.2";

/// Who made a device, as its description tells.
pub open spec fn vendor_of(sys_descr: Seq<char>) -> Vendor {
    let s = lowered(sys_descr);
    if has_text(s, "cnit"@) {
        Vendor::CNIT
    } else if has_text(s, "h3c"@) {
        Vendor::H3C
    } else if has_text(s, "huawei"@) {
        Vendor::Huawei
    } else {
        Vendor::Unknown
    }
}

/// Who made a device, as its description tells.
pub fn detect_vendor(sys_descr: &str) -> (r: Vendor)
    ensures
        r == vendor_of(sys_descr@),
{
    let s = to_ascii_lowercase(sys_descr);
    if contains(s.as_str(), "cnit") {
        Vendor::CNIT
    } else if contains(s.as_str(), "h3c") {
        Vendor::H3C
    } else if contains(s.as_str(), "huawei") {
        Vendor::Huawei
    } else {
        Vendor::Unknown
    }
}

/// The OIDs of what a device tells of its neighbors.
#[derive(Clone, Copy, Debug)]
pub struct LldpOidSet {
    /// Local ports.
    pub loc_port: &'static str,
    /// Names of neighbors.
    pub rem_sys: &'static str,
    /// Ports of neighbors.
    pub rem_port: &'static str,
}

/// The OIDs of what a device tells of its neighbors, the same for all vendors.
pub fn lldp_oids(_vendor: &Vendor) -> (r: LldpOidSet)
    ensures
        r.loc_port@ == "1.0.8802.1.1.2.1.3.7.1.3"@,
        r.rem_sys@ == "1.0.8802.1.1.2.1.4.1.1.9"@,
        r.rem_port@ == "1.0.8802.1.1.2.1.4.1.1.7"@,
{
    LldpOidSet {
        loc_port: "1.0.8802.1.1.2.1.3.7.1.3",
        rem_sys: "1.0.8802.1.1.2.1.4.1.1.9",
        rem_port: "1.0.8802.1.1.2.1.4.1.1.7",
    }
}

/// The maker that a switch told: that of its description, where there is one.
pub open spec fn told_vendor(output: Result<String, String>) -> Vendor {
    match output {
        Ok(out) => match answer_text(out@) {
            Ok(description) => vendor_of(description),
            Err(_) => vendor_of(Seq::empty()),
        },
        Err(_) => vendor_of(Seq::empty()),
    }
}

/// The target at `ip`, from what was printed when it was asked for its description.
/// A target that gave none is of an unknown vendor.
pub fn init_target(ip: &str, output: &Result<String, String>) -> (r: Target)
    ensures
        r.ip@ == ip@,
        r.vendor == (match output {
            Ok(out) => match answer_text(out@) {
                Ok(d) => vendor_of(d),
                Err(_) => vendor_of(Seq::empty()),
            },
            Err(_) => vendor_of(Seq::empty()),
        }),
        r.vendor == told_vendor(*output),
{
    let sys_descr = match output {
        Ok(out) => match parse_snmp_value(out.as_str()) {
            Ok(d) => d,
            Err(_) => String::new(),
        },
        Err(_) => String::new(),
    };
    Target { ip: copy(ip), vendor: detect_vendor(sys_descr.as_str()) }
}

// ---------------------------------------------------------------------------
// Interfaces and neighbors
// ---------------------------------------------------------------------------
/// An interface of a device.
#[derive(Clone, Debug)]
pub struct LocalInterface {
    /// The device.
    pub device: String,
    /// The interface.
    pub port: String,
}

/// A link between two devices.
#[derive(Clone, Debug)]
pub struct LldpNeighbor {
    /// The device that was asked.
    pub local_device: String,
    /// Its port.
    pub local_port: String,
    /// The device at the other end.
    pub remote_device: String,
    /// Its port.
    pub remote_port: String,
}

/// An interface, read as characters: device and port.
pub type InterfaceView = (Seq<char>, Seq<char>);

impl View for LocalInterface {
    type V = InterfaceView;

    open spec fn view(&self) -> InterfaceView {
        (self.device@, self.port@)
    }
}

/// A link, read as characters.
#[verifier::ext_equal]
pub struct NeighborView {
    pub local_device: Seq<char>,
    pub local_port: Seq<char>,
    pub remote_device: Seq<char>,
    pub remote_port: Seq<char>,
}

impl View for LldpNeighbor {
    type V = NeighborView;

    open spec fn view(&self) -> NeighborView {
        NeighborView {
            local_device: self.local_device@,
            local_port: self.local_port@,
            remote_device: self.remote_device@,
            remote_port: self.remote_port@,
        }
    }
}

/// Interfaces, read as characters.
pub open spec fn interface_views(v: Seq<LocalInterface>) -> Seq<InterfaceView> {
    v.map_values(|i: LocalInterface| i@)
}

/// Links, read as characters.
pub open spec fn neighbor_views(v: Seq<LldpNeighbor>) -> Seq<NeighborView> {
    v.map_values(|n: LldpNeighbor| n@)
}

/// The name that stands for a port: its own.
pub fn normalize_port_name(port: &str) -> (r: String)
    ensures
        r@ == port@,
{
    copy(port)
}

/// One interface for each description.
pub open spec fn interfaces_of(
    device: Seq<char>,
    ports: Seq<(Seq<char>, Seq<char>)>,
) -> Seq<InterfaceView> {
    ports.map_values(|e: (Seq<char>, Seq<char>)| (device, e.1))
}

/// The number of the local port in an index: its last part but one, or its only
/// part.
pub open spec fn local_port_number(index: Seq<char>) -> Seq<char> {
    let p = pieces(index, seq!['.']);
    if p.len() >= 2 {
        p[p.len() - 2]
    } else {
        p[0]
    }
}

/// The links that the walks tell of: one for each neighbor whose port and whose
/// local port are known.
pub open spec fn neighbors_of(
    device: Seq<char>,
    loc_ports: Map<Seq<char>, Seq<char>>,
    rem_sys: Seq<(Seq<char>, Seq<char>)>,
    rem_port: Map<Seq<char>, Seq<char>>,
) -> Seq<NeighborView>
    decreases rem_sys.len(),
{
    if rem_sys.len() == 0 {
        Seq::empty()
    } else {
        let before = neighbors_of(device, loc_ports, rem_sys.drop_last(), rem_port);
        let (index, remote) = rem_sys.last();
        let number = local_port_number(index);
        if rem_port.contains_key(index) && loc_ports.contains_key(number) {
            before.push(
                NeighborView {
                    local_device: device,
                    local_port: loc_ports[number],
                    remote_device: remote,
                    remote_port: rem_port[index],
                },
            )
        } else {
            before
        }
    }
}

/// One interface for each description.
pub fn list_interfaces(device: &str, ports: &TextMap<String>) -> (r: Vec<LocalInterface>)
    ensures
        interface_views(r@) == interfaces_of(device@, text_rows(*ports)),
{
    let n: usize = ports.len();
    let mut r: Vec<LocalInterface> = Vec::new();
    let mut i: usize = 0;
    let ghost want = interfaces_of(device@, text_rows(*ports));
    assert(interface_views(r@) =~= want.take(0));
    while i < n
        invariant
            n == ports.rows().len(),
            i <= n,
            want == interfaces_of(device@, text_rows(*ports)),
            interface_views(r@) == want.take(i as int),
        decreases n - i,
    {
        let ghost was = r@;
        let f = LocalInterface { device: copy(device), port: copy(ports.value_at(i).as_str()) };
        let ghost fv = f@;
        r.push(f);
        assert(interface_views(r@) =~= interface_views(was).push(fv));
        assert(want.take(i + 1) =~= want.take(i as int).push(fv));
        i = i + 1;
    }
    assert(want.take(n as int) =~= want);
    r
}

fn port_number(index: &str) -> (r: String)
    ensures
        r@ == local_port_number(index@),
{
    let parts = split_char(index, '.');
    let n: usize = parts.len();
    let ghost p = pieces(index@, seq!['.']);
    assert(p.len() == n);
    if n >= 2 {
        assert(p[n - 2] == parts@[n - 2]@);
        copy(parts[n - 2].as_str())
    } else {
        assert(p[0] == parts@[0]@);
        copy(parts[0].as_str())
    }
}

/// The links that the walks tell of.
pub fn list_neighbors(
    device: &str,
    loc_ports: &TextMap<String>,
    rem_sys: &TextMap<String>,
    rem_port: &TextMap<String>,
) -> (r: Vec<LldpNeighbor>)
    ensures
        neighbor_views(r@) == neighbors_of(
            device@,
            text_map(*loc_ports),
            text_rows(*rem_sys),
            text_map(*rem_port),
        ),
{
    let n: usize = rem_sys.len();
    let mut r: Vec<LldpNeighbor> = Vec::new();
    let mut i: usize = 0;
    let ghost rows = text_rows(*rem_sys);
    assert(neighbor_views(r@) =~= Seq::<NeighborView>::empty());
    assert(rows.take(0) =~= Seq::<(Seq<char>, Seq<char>)>::empty());
    while i < n
        invariant
            n == rem_sys.rows().len(),
            i <= n,
            rows == text_rows(*rem_sys),
            neighbor_views(r@) == neighbors_of(
                device@,
                text_map(*loc_ports),
                rows.take(i as int),
                text_map(*rem_port),
            ),
        decreases n - i,
    {
        assert(rows.take(i + 1).drop_last() =~= rows.take(i as int));
        assert(rows.take(i + 1).last() == rows[i as int]);
        let index = rem_sys.key_at(i);
        match rem_port.get(index) {
            Some(remote_port) => {
                let number = port_number(index);
                match loc_ports.get(number.as_str()) {
                    Some(local_port) => {
                        let x = LldpNeighbor {
                            local_device: copy(device),
                            local_port: copy(local_port.as_str()),
                            remote_device: copy(rem_sys.value_at(i).as_str()),
                            remote_port: normalize_port_name(remote_port.as_str()),
                        };
                        let ghost was = r@;
                        let ghost xv = x@;
                        r.push(x);
                        assert(neighbor_views(r@) =~= neighbor_views(was).push(xv));
                    },
                    None => {},
                }
            },
            None => {},
        }
        i = i + 1;
    }
    assert(rows.take(n as int) =~= rows);
    r
}

// ---------------------------------------------------------------------------
// Asking one switch
// ---------------------------------------------------------------------------
/// What comes next in asking a switch.
#[derive(Debug)]
pub enum SwitchStep {
    /// The command is run.
    Run(SnmpCommand),
    /// All was told.
    Done {
        /// The interfaces of the switch.
        interfaces: Vec<LocalInterface>,
        /// Its links.
        neighbors: Vec<LldpNeighbor>,
    },
    /// The switch cannot be asked.
    Failed(String),
}

/// A switch that is being asked: first for its name, then for its interfaces, its
/// local ports, the names of its neighbors and their ports.
#[derive(Debug)]
pub struct SwitchScrape {
    transport: SnmpTransport,
    target: Target,
    device: Option<String>,
    walks: Vec<TextMap<String>>,
}

/// The OID that the walk number `i` asks about.
pub open spec fn walk_oid(i: int) -> Seq<char> {
    if i == 0 {
        "1.3.6.1.2.1.2.2.1.2"@
    } else if i == 1 {
        "1.0.8802.1.1.2.1.3.7.1.3"@
    } else if i == 2 {
        "1.0.8802.1.1.2.1.4.1.1.9"@
    } else {
        "1.0.8802.1.1.2.1.4.1.1.7"@
    }
}

/// The step is to run this program, or to fail where there is nothing to ask with.
pub open spec fn step_asks(
    s: SwitchStep,
    program: Seq<char>,
    t: TransportView,
    target: Seq<char>,
    oid: Seq<char>,
) -> bool {
    match s {
        SwitchStep::Run(c) => asks(Ok(c), program, t, target, oid),
        SwitchStep::Failed(e) => asks(Err(e), program, t, target, oid),
        SwitchStep::Done { .. } => false,
    }
}

/// The step is to fail with this message.
pub open spec fn step_fails(s: SwitchStep, message: Seq<char>) -> bool {
    s matches SwitchStep::Failed(e) && e@ == message
}

/// What is known of a switch: its name, and the walks that were told.
pub type SwitchKnown = (Option<Seq<char>>, Seq<TextMap<String>>);

/// That `step` and what is known after it follow from an output of a program.
pub open spec fn switch_follows(
    transport: TransportView,
    ip: Seq<char>,
    before: SwitchKnown,
    output: Result<String, String>,
    after: SwitchKnown,
    step: SwitchStep,
) -> bool {
    match (output, before.0) {
        (Err(e), _) => step_fails(step, e@) && after == before,
        (Ok(out), None) => after.1 == before.1 && match answer_text(out@) {
            Err(m) => step_fails(step, m) && after.0 is None,
            Ok(name) => after.0 == Some(name) && step_asks(
                step,
                "snmpwalk"@,
                transport,
                ip,
                walk_oid(0),
            ),
        },
        (Ok(out), Some(name)) => {
            let k = before.1.len() as int;
            &&& after.0 == Some(name)
            &&& after.1.len() == k + 1
            &&& after.1.drop_last() == before.1
            &&& text_map(after.1.last()) == walk_of(lines_of(out@), walk_oid(k))
            &&& k < 3 ==> step_asks(step, "snmpwalk"@, transport, ip, walk_oid(k + 1))
            &&& k == 3 ==> {
                &&& step matches SwitchStep::Done { interfaces, neighbors }
                &&& interface_views(interfaces@) == interfaces_of(name, text_rows(after.1[0]))
                &&& neighbor_views(neighbors@) == neighbors_of(
                    name,
                    text_map(after.1[1]),
                    text_rows(after.1[2]),
                    text_map(after.1[3]),
                )
            }
        },
    }
}

impl SwitchScrape {
    /// What identifies the one who asks.
    pub closed spec fn transport(&self) -> TransportView {
        self.transport@
    }

    /// The address of the switch.
    pub closed spec fn ip(&self) -> Seq<char> {
        self.target.ip@
    }

    /// The name of the switch, once it was told.
    pub closed spec fn device(&self) -> Option<Seq<char>> {
        crate::text::opt_text(self.device)
    }

    /// The walks that were told.
    pub closed spec fn walks(&self) -> Seq<TextMap<String>> {
        self.walks@
    }

    /// The name is told before the walks, of which there are four.
    pub open spec fn well_formed(&self) -> bool {
        &&& self.device() is None ==> self.walks().len() == 0
        &&& self.walks().len() <= 4
    }

    /// Begins to ask a switch: for its name.
    pub fn start(transport: SnmpTransport, target: Target) -> (r: (SwitchScrape, SwitchStep))
        ensures
            r.0.well_formed(),
            r.0.transport() == transport@,
            r.0.ip() == target.ip@,
            r.0.device() is None,
            step_asks(r.1, "snmpget"@, transport@, target.ip@, "1.3.6.1.2.1.1.5.0"@),
    {
        let walks: Vec<TextMap<String>> = Vec::new();
        let step = match snmp_get(&transport, target.ip.as_str(), SYS_NAME) {
            Ok(c) => SwitchStep::Run(c),
            Err(e) => SwitchStep::Failed(e),
        };
        (SwitchScrape { transport, target, device: None, walks }, step)
    }

    /// Goes on after a command printed its output, or could not be run.
    pub fn step(&mut self, output: Result<String, String>) -> (r: SwitchStep)
        requires
            old(self).well_formed(),
            old(self).walks().len() < 4,
        ensures
            final(self).well_formed(),
            final(self).transport() == old(self).transport(),
            final(self).ip() == old(self).ip(),
            match output {
                Err(e) => step_fails(r, e@) && final(self).device() == old(self).device()
                    && final(self).walks() == old(self).walks(),
                Ok(out) => match old(self).device() {
                    None => final(self).walks() == old(self).walks() && match answer_text(out@) {
                        Err(m) => step_fails(r, m) && final(self).device() is None,
                        Ok(name) => final(self).device() == Some(name) && step_asks(
                            r,
                            "snmpwalk"@,
                            old(self).transport(),
                            old(self).ip(),
                            walk_oid(0),
                        ),
                    },
                    Some(name) => {
                        let k = old(self).walks().len() as int;
                        &&& final(self).device() == Some(name)
                        &&& final(self).walks().len() == k + 1
                        &&& final(self).walks().drop_last() == old(self).walks()
                        &&& text_map(final(self).walks().last()) == walk_of(
                            lines_of(out@),
                            walk_oid(k),
                        )
                        &&& k < 3 ==> step_asks(
                            r,
                            "snmpwalk"@,
                            old(self).transport(),
                            old(self).ip(),
                            walk_oid(k + 1),
                        )
                        &&& k == 3 ==> {
                            let w = final(self).walks();
                            &&& r matches SwitchStep::Done { interfaces, neighbors }
                            &&& interface_views(interfaces@) == interfaces_of(
                                name,
                                text_rows(w[0]),
                            )
                            &&& neighbor_views(neighbors@) == neighbors_of(
                                name,
                                text_map(w[1]),
                                text_rows(w[2]),
                                text_map(w[3]),
                            )
                        }
                    },
                },
            },
            switch_follows(
                old(self).transport(),
                old(self).ip(),
                (old(self).device(), old(self).walks()),
                output,
                (final(self).device(), final(self).walks()),
                r,
            ),
    {
        let out = match output {
            Ok(out) => out,
            Err(e) => {
                return SwitchStep::Failed(e);
            },
        };
        if self.device.is_none() {
            return match parse_snmp_value(out.as_str()) {
                Ok(name) => {
                    self.device = Some(name);
                    self.ask(0)
                },
                Err(e) => SwitchStep::Failed(e),
            };
        }
        let k: usize = self.walks.len();
        let oid = self.oid(k);
        let walk = parse_walk(out.as_str(), oid);
        let ghost was = self.walks@;
        self.walks.push(walk);
        assert(self.walks@.drop_last() =~= was);
        if k < 3 {
            return self.ask(k + 1);
        }
        match &self.device {
            Some(name) => SwitchStep::Done {
                interfaces: list_interfaces(name.as_str(), &self.walks[0]),
                neighbors: list_neighbors(
                    name.as_str(),
                    &self.walks[1],
                    &self.walks[2],
                    &self.walks[3],
                ),
            },
            None => SwitchStep::Failed(String::new()),
        }
    }

    fn oid(&self, k: usize) -> (r: &'static str)
        ensures
            r@ == walk_oid(k as int),
    {
        let oids = lldp_oids(&self.target.vendor);
        if k == 0 {
            IF_DESCR
        } else if k == 1 {
            oids.loc_port
        } else if k == 2 {
            oids.rem_sys
        } else {
            oids.rem_port
        }
    }

    fn ask(&self, k: usize) -> (r: SwitchStep)
        ensures
            step_asks(r, "snmpwalk"@, self.transport(), self.ip(), walk_oid(k as int)),
    {
        match snmpwalk(&self.transport, self.target.ip.as_str(), self.oid(k)) {
            Ok(c) => SwitchStep::Run(c),
            Err(e) => SwitchStep::Failed(e),
        }
    }
}

// ---------------------------------------------------------------------------
// Events
// ---------------------------------------------------------------------------
/// Where a device stands in the network.
#[derive(Clone, Copy, Debug, PartialEq, Eq, Structural)]
pub enum Role {
    /// A switch that nodes are connected to.
    Leaf,
    /// A switch that leaves are connected to.
    Spine,
    /// Anything else.
    Node,
}

/// Where the device of that name stands.
pub open spec fn role(name: Seq<char>) -> Role {
    let n = uppered(name);
    if has_text(n, "RASW"@) || has_text(n, "EHSW "@) || has_text(n, "LEAF"@) {
        Role::Leaf
    } else if has_text(n, "RDSW"@) || has_text(n, "EDSW "@) || has_text(n, "SPINE"@) {
        Role::Spine
    } else {
        Role::Node
    }
}

/// The name of a role.
pub open spec fn role_name(r: Role) -> Seq<char> {
    match r {
        Role::Leaf => "leaf"@,
        Role::Spine => "spine"@,
        Role::Node => "node"@,
    }
}

/// Where the device of that name stands.
pub fn role_of(name: &str) -> (r: Role)
    ensures
        r == role(name@),
{
    let n = to_ascii_uppercase(name);
    if contains(n.as_str(), "RASW") || contains(n.as_str(), "EHSW ") || contains(
        n.as_str(),
        "LEAF",
    ) {
        Role::Leaf
    } else if contains(n.as_str(), "RDSW") || contains(n.as_str(), "EDSW ") || contains(
        n.as_str(),
        "SPINE",
    ) {
        Role::Spine
    } else {
        Role::Node
    }
}

/// The name of the role of the device of that name.
pub fn device_role(name: &str) -> (r: &'static str)
    ensures
        r@ == role_name(role(name@)),
{
    match role_of(name) {
        Role::Leaf => "leaf",
        Role::Spine => "spine",
        Role::Node => "node",
    }
}

/// The event that tells of an interface.
pub open spec fn interface_log(
    ts: Timestamp,
    cluster: Seq<char>,
    ip: Seq<char>,
    i: InterfaceView,
) -> LogView {
    Map::<Seq<char>, ValueView>::empty().insert("timestamp"@, ValueView::Timestamp(ts)).insert(
        "cluster"@,
        ValueView::Text(cluster),
    ).insert("device"@, ValueView::Text(i.0)).insert("interface"@, ValueView::Text(i.1)).insert(
        "interface_normalized"@,
        ValueView::Text(i.1),
    ).insert("out_band_ip"@, ValueView::Text(ip)).insert(
        "type"@,
        ValueView::Text(role_name(role(i.0))),
    ).insert("log_type"@, ValueView::Text("interface"@))
}

/// Links of the device are not told.
pub open spec fn untold(device: Seq<char>) -> bool {
    "O"@.is_prefix_of(device) || "o"@.is_prefix_of(device) || "RMSW"@.is_prefix_of(device)
        || "rmsw"@.is_prefix_of(device)
}

/// The level of a link, where it has one.
pub open spec fn level(local: Role, remote: Role) -> ValueView {
    match (local, remote) {
        (Role::Leaf, Role::Spine) => ValueView::Text("1"@),
        (Role::Leaf, Role::Node) => ValueView::Text("2"@),
        _ => ValueView::Null,
    }
}

/// A link as it is told: from the node to the leaf, whoever told of it.
pub open spec fn directed(n: NeighborView) -> NeighborView {
    if role(n.local_device) is Leaf && role(n.remote_device) is Node {
        NeighborView {
            local_device: n.remote_device,
            local_port: n.remote_port,
            remote_device: n.local_device,
            remote_port: n.local_port,
        }
    } else {
        n
    }
}

/// The link is told of: not by a spine of its leaves, nor by a device whose links
/// are not told.
pub open spec fn told(n: NeighborView) -> bool {
    !untold(n.local_device) && !(role(n.local_device) is Spine && role(n.remote_device) is Leaf)
}

/// The event that tells of a link.
pub open spec fn link_log(ts: Timestamp, cluster: Seq<char>, n: NeighborView) -> LogView {
    let d = directed(n);
    Map::<Seq<char>, ValueView>::empty().insert("timestamp"@, ValueView::Timestamp(ts)).insert(
        "cluster"@,
        ValueView::Text(cluster),
    ).insert("level"@, level(role(n.local_device), role(n.remote_device))).insert(
        "from_device"@,
        ValueView::Text(d.local_device),
    ).insert("from_interface"@, ValueView::Text(d.local_port)).insert(
        "from_interface_normalized"@,
        ValueView::Text(d.local_port),
    ).insert("to_device"@, ValueView::Text(d.remote_device)).insert(
        "to_interface"@,
        ValueView::Text(d.remote_port),
    ).insert("to_interface_normalized"@, ValueView::Text(d.remote_port)).insert(
        "log_type"@,
        ValueView::Text("link"@),
    )
}

/// The events that tell of the links.
pub open spec fn link_logs(ts: Timestamp, cluster: Seq<char>, ns: Seq<NeighborView>) -> Seq<LogView>
    decreases ns.len(),
{
    if ns.len() == 0 {
        Seq::empty()
    } else {
        let before = link_logs(ts, cluster, ns.drop_last());
        if told(ns.last()) {
            before.push(link_log(ts, cluster, ns.last()))
        } else {
            before
        }
    }
}

/// The events that tell of interfaces and links.
pub open spec fn topology_logs(
    ts: Timestamp,
    interfaces: Seq<InterfaceView>,
    neighbors: Seq<NeighborView>,
    cluster: Seq<char>,
    ip: Seq<char>,
) -> Seq<LogView> {
    interfaces.map_values(|i: InterfaceView| interface_log(ts, cluster, ip, i)) + link_logs(
        ts,
        cluster,
        neighbors,
    )
}

fn interface_event(ts: Timestamp, cluster: &str, ip: &str, iface: &LocalInterface) -> (r: LogEvent)
    ensures
        r@ == interface_log(ts, cluster@, ip@, iface@),
{
    let normalized = normalize_port_name(iface.port.as_str());
    let mut log = LogEvent::new();
    log.insert("timestamp", Value::Timestamp(ts));
    log.insert_text("cluster", cluster);
    log.insert_text("device", iface.device.as_str());
    log.insert_text("interface", iface.port.as_str());
    log.insert_text("interface_normalized", normalized.as_str());
    log.insert_text("out_band_ip", ip);
    log.insert_text("type", device_role(iface.device.as_str()));
    log.insert_text("log_type", "interface");
    log
}

fn link_event(ts: Timestamp, cluster: &str, n: &LldpNeighbor) -> (r: Option<LogEvent>)
    ensures
        match r {
            Some(l) => told(n@) && l@ == link_log(ts, cluster@, n@),
            None => !told(n@),
        },
{
    if starts_with(n.local_device.as_str(), "O") || starts_with(n.local_device.as_str(), "o")
        || starts_with(n.local_device.as_str(), "RMSW") || starts_with(
        n.local_device.as_str(),
        "rmsw",
    ) {
        return None;
    }
    let local_role = role_of(n.local_device.as_str());
    let remote_role = role_of(n.remote_device.as_str());
    let level = match (local_role, remote_role) {
        (Role::Leaf, Role::Spine) => Value::Text(copy("1")),
        (Role::Leaf, Role::Node) => Value::Text(copy("2")),
        (Role::Spine, Role::Leaf) => {
            return None;
        },
        _ => Value::Null,
    };
    let reversed = match (local_role, remote_role) {
        (Role::Leaf, Role::Node) => true,
        _ => false,
    };
    let (from_device, from_port, to_device, to_port) = if reversed {
        (&n.remote_device, &n.remote_port, &n.local_device, &n.local_port)
    } else {
        (&n.local_device, &n.local_port, &n.remote_device, &n.remote_port)
    };
    let from_normalized = normalize_port_name(from_port.as_str());
    let to_normalized = normalize_port_name(to_port.as_str());
    let mut log = LogEvent::new();
    log.insert("timestamp", Value::Timestamp(ts));
    log.insert_text("cluster", cluster);
    log.insert("level", level);
    log.insert_text("from_device", from_device.as_str());
    log.insert_text("from_interface", from_port.as_str());
    log.insert_text("from_interface_normalized", from_normalized.as_str());
    log.insert_text("to_device", to_device.as_str());
    log.insert_text("to_interface", to_port.as_str());
    log.insert_text("to_interface_normalized", to_normalized.as_str());
    log.insert_text("log_type", "link");
    Some(log)
}

/// The events that tell of interfaces and links, observed at `ts`.
pub fn neighbors_to_logs_at(
    ts: Timestamp,
    interfaces: &Vec<LocalInterface>,
    neighbors: &Vec<LldpNeighbor>,
    cluster_name: &str,
    target_ip: &str,
) -> (r: Vec<LogEvent>)
    ensures
        log_views(r@) == topology_logs(
            ts,
            interface_views(interfaces@),
            neighbor_views(neighbors@),
            cluster_name@,
            target_ip@,
        ),
{
    let mut logs: Vec<LogEvent> = Vec::new();
    let ghost iv = interface_views(interfaces@);
    let ghost nv = neighbor_views(neighbors@);
    let ghost first = iv.map_values(
        |i: InterfaceView| interface_log(ts, cluster_name@, target_ip@, i),
    );
    let n: usize = interfaces.len();
    let mut i: usize = 0;
    assert(log_views(logs@) =~= first.take(0));
    while i < n
        invariant
            n == interfaces@.len(),
            i <= n,
            iv == interface_views(interfaces@),
            first == iv.map_values(
                |i: InterfaceView| interface_log(ts, cluster_name@, target_ip@, i),
            ),
            log_views(logs@) == first.take(i as int),
        decreases n - i,
    {
        let log = interface_event(ts, cluster_name, target_ip, &interfaces[i]);
        proof {
            lemma_log_views_push(logs@, log);
            assert(iv[i as int] == interfaces@[i as int]@);
            assert(first.take(i + 1) =~= first.take(i as int).push(log@));
        }
        logs.push(log);
        i = i + 1;
    }
    assert(first.take(n as int) =~= first);
    let m: usize = neighbors.len();
    let mut j: usize = 0;
    assert(nv.take(0) =~= Seq::<NeighborView>::empty());
    assert(first + Seq::<LogView>::empty() =~= first);
    while j < m
        invariant
            m == neighbors@.len(),
            j <= m,
            nv == neighbor_views(neighbors@),
            log_views(logs@) == first + link_logs(ts, cluster_name@, nv.take(j as int)),
        decreases m - j,
    {
        assert(nv.take(j + 1).drop_last() =~= nv.take(j as int));
        assert(nv.take(j + 1).last() == neighbors@[j as int]@);
        match link_event(ts, cluster_name, &neighbors[j]) {
            Some(log) => {
                proof {
                    lemma_log_views_push(logs@, log);
                    let before = link_logs(ts, cluster_name@, nv.take(j as int));
                    assert((first + before).push(log@) =~= first + before.push(log@));
                }
                logs.push(log);
            },
            None => {},
        }
        j = j + 1;
    }
    assert(nv.take(m as int) =~= nv);
    logs
}

/// The events that tell of interfaces and links, observed now.
pub fn neighbors_to_logs(
    interfaces: &Vec<LocalInterface>,
    neighbors: &Vec<LldpNeighbor>,
    cluster_name: &str,
    target_ip: &str,
) -> (r: Vec<LogEvent>)
    ensures
        exists|ts: Timestamp|
            log_views(r@) == #[trigger] topology_logs(
                ts,
                interface_views(interfaces@),
                neighbor_views(neighbors@),
                cluster_name@,
                target_ip@,
            ),
{
    let ts = now();
    neighbors_to_logs_at(ts, interfaces, neighbors, cluster_name, target_ip)
}

/// The events of one target, observed now, from what asking it gave.
pub fn collect_single_target(
    told: Result<(Vec<LocalInterface>, Vec<LldpNeighbor>), String>,
    cluster_name: &str,
    target_ip: &str,
) -> (r: Result<Vec<LogEvent>, String>)
    ensures
        match (told, r) {
            (Ok((interfaces, neighbors)), Ok(logs)) => exists|ts: Timestamp|
                log_views(logs@) == #[trigger] topology_logs(
                    ts,
                    interface_views(interfaces@),
                    neighbor_views(neighbors@),
                    cluster_name@,
                    target_ip@,
                ),
            (Err(e), Err(f)) => e == f,
            _ => false,
        },
{
    match told {
        Ok((interfaces, neighbors)) => Ok(
            neighbors_to_logs(&interfaces, &neighbors, cluster_name, target_ip),
        ),
        Err(e) => Err(e),
    }
}

/// The events of all targets that could be asked, in their order.
pub open spec fn all_logs(results: Seq<Result<Vec<LogEvent>, String>>) -> Seq<LogView>
    decreases results.len(),
{
    if results.len() == 0 {
        Seq::empty()
    } else {
        match results.last() {
            Ok(logs) => all_logs(results.drop_last()) + log_views(logs@),
            Err(_) => all_logs(results.drop_last()),
        }
    }
}

/// The events of all targets that could be asked, in their order.
pub fn collect_cluster_logs(results: Vec<Result<Vec<LogEvent>, String>>) -> (r: Vec<LogEvent>)
    ensures
        log_views(r@) == all_logs(results@),
{
    let mut rest = results;
    let mut logs: Vec<LogEvent> = Vec::new();
    let ghost all = rest@;
    let n: usize = rest.len();
    assert(log_views(logs@) =~= Seq::<LogView>::empty());
    assert(all.take(n as int) =~= all);
    assert(all_logs(all) =~= all_logs(all) + log_views(logs@));
    let mut left: usize = n;
    while left > 0
        invariant
            left == rest@.len(),
            rest@ == all.take(left as int),
            left <= all.len(),
            all_logs(all) == all_logs(rest@) + log_views(logs@),
        decreases left,
    {
        let ghost was = rest@;
        let last = rest.pop();
        assert(rest@ =~= was.drop_last());
        assert(was.drop_last() =~= all.take(left - 1));
        match last {
            Some(Ok(mut found)) => {
                let ghost a = found@;
                let ghost b = logs@;
                found.append(&mut logs);
                logs = found;
                assert(log_views(a + b) =~= log_views(a) + log_views(b));
                assert(all_logs(rest@) + log_views(a) + log_views(b) =~= all_logs(rest@) + (
                log_views(a) + log_views(b)));
            },
            _ => {},
        }
        left = left - 1;
    }
    assert(all_logs(rest@) + log_views(logs@) =~= log_views(logs@));
    logs
}

// ---------------------------------------------------------------------------
// What holds of the events
// ---------------------------------------------------------------------------
/// `n` is the link to neighbor `k` of the walks.
pub open spec fn links_to(
    device: Seq<char>,
    loc_ports: Map<Seq<char>, Seq<char>>,
    rem_sys: Seq<(Seq<char>, Seq<char>)>,
    rem_port: Map<Seq<char>, Seq<char>>,
    k: int,
    n: NeighborView,
) -> bool {
    &&& 0 <= k < rem_sys.len()
    &&& rem_port.contains_key(rem_sys[k].0)
    &&& loc_ports.contains_key(local_port_number(rem_sys[k].0))
    &&& n == NeighborView {
        local_device: device,
        local_port: loc_ports[local_port_number(rem_sys[k].0)],
        remote_device: rem_sys[k].1,
        remote_port: rem_port[rem_sys[k].0],
    }
}

/// The links are exactly those to neighbors whose port and whose local port were told
/// as well.
pub proof fn law_every_known_neighbor_is_linked(
    device: Seq<char>,
    loc_ports: Map<Seq<char>, Seq<char>>,
    rem_sys: Seq<(Seq<char>, Seq<char>)>,
    rem_port: Map<Seq<char>, Seq<char>>,
    n: NeighborView,
)
    ensures
        neighbors_of(device, loc_ports, rem_sys, rem_port).contains(n) <==> exists|k: int|
            links_to(device, loc_ports, rem_sys, rem_port, k, n),
    decreases rem_sys.len(),
{
    let all = neighbors_of(device, loc_ports, rem_sys, rem_port);
    if rem_sys.len() > 0 {
        let rest = rem_sys.drop_last();
        let before = neighbors_of(device, loc_ports, rest, rem_port);
        let last = rem_sys.len() - 1;
        law_every_known_neighbor_is_linked(device, loc_ports, rest, rem_port, n);
        if before.contains(n) {
            let k = choose|k: int| links_to(device, loc_ports, rest, rem_port, k, n);
            assert(links_to(device, loc_ports, rem_sys, rem_port, k, n));
            let j = choose|j: int| 0 <= j < before.len() && before[j] == n;
            assert(all[j] == n);
        }
        if links_to(device, loc_ports, rem_sys, rem_port, last, n) {
            assert(all.last() == n);
        }
        if all.contains(n) && !before.contains(n) {
            let j = choose|j: int| 0 <= j < all.len() && all[j] == n;
            if j < before.len() {
                assert(before[j] == n);
            }
            assert(links_to(device, loc_ports, rem_sys, rem_port, last, n));
        }
        if exists|k: int| links_to(device, loc_ports, rem_sys, rem_port, k, n) {
            let k = choose|k: int| links_to(device, loc_ports, rem_sys, rem_port, k, n);
            if k < last {
                assert(links_to(device, loc_ports, rest, rem_port, k, n));
            }
        }
    }
}

/// A link that a device tells of whose name begins with `O`, `o`, `RMSW` or `rmsw`
/// makes no difference to the events, wherever it stands among the links.
pub proof fn law_untold_devices_tell_no_links(
    ts: Timestamp,
    cluster: Seq<char>,
    before: Seq<NeighborView>,
    n: NeighborView,
    after: Seq<NeighborView>,
)
    requires
        untold(n.local_device),
    ensures
        link_logs(ts, cluster, before.push(n) + after) == link_logs(ts, cluster, before + after),
    decreases after.len(),
{
    let with = before.push(n) + after;
    let without = before + after;
    if after.len() == 0 {
        assert(with.drop_last() =~= before);
        assert(with.last() == n);
        assert(without =~= before);
    } else {
        assert(with.drop_last() =~= before.push(n) + after.drop_last());
        assert(without.drop_last() =~= before + after.drop_last());
        assert(with.last() == after.last() && without.last() == after.last());
        law_untold_devices_tell_no_links(ts, cluster, before, n, after.drop_last());
    }
}

/// A link between a leaf and a spine is told once, by the leaf, with level 1.
pub proof fn law_leaf_tells_of_spine(ts: Timestamp, cluster: Seq<char>, n: NeighborView)
    requires
        role(n.local_device) is Leaf,
        role(n.remote_device) is Spine,
        !untold(n.local_device),
    ensures
        told(n),
        link_log(ts, cluster, n)["level"@] == ValueView::Text("1"@),
        !told(
            NeighborView {
                local_device: n.remote_device,
                local_port: n.remote_port,
                remote_device: n.local_device,
                remote_port: n.local_port,
            },
        ),
{
    lemma_field_names();
}

/// A link that a leaf tells of to a node is told from the node to the leaf, with
/// level 2.
pub proof fn law_leaf_link_starts_at_node(ts: Timestamp, cluster: Seq<char>, n: NeighborView)
    requires
        role(n.local_device) is Leaf,
        role(n.remote_device) is Node,
        !untold(n.local_device),
    ensures
        told(n),
        ({
            let l = link_log(ts, cluster, n);
            &&& l["level"@] == ValueView::Text("2"@)
            &&& l["from_device"@] == ValueView::Text(n.remote_device)
            &&& l["from_interface"@] == ValueView::Text(n.remote_port)
            &&& l["to_device"@] == ValueView::Text(n.local_device)
            &&& l["to_interface"@] == ValueView::Text(n.local_port)
        }),
{
    lemma_field_names();
}

proof fn lemma_field_names()
    ensures
        "level"@ != "from_device"@,
        "level"@ != "from_interface"@,
        "level"@ != "from_interface_normalized"@,
        "level"@ != "to_device"@,
        "level"@ != "to_interface"@,
        "level"@ != "to_interface_normalized"@,
        "level"@ != "log_type"@,
        "from_device"@ != "from_interface"@,
        "from_device"@ != "from_interface_normalized"@,
        "from_device"@ != "to_device"@,
        "from_device"@ != "to_interface"@,
        "from_device"@ != "to_interface_normalized"@,
        "from_device"@ != "log_type"@,
        "from_interface"@ != "from_interface_normalized"@,
        "from_interface"@ != "to_device"@,
        "from_interface"@ != "to_interface"@,
        "from_interface"@ != "to_interface_normalized"@,
        "from_interface"@ != "log_type"@,
        "to_device"@ != "to_interface"@,
        "to_device"@ != "to_interface_normalized"@,
        "to_device"@ != "log_type"@,
        "to_interface"@ != "to_interface_normalized"@,
        "to_interface"@ != "log_type"@,
{
    reveal_strlit("level");
    reveal_strlit("from_device");
    reveal_strlit("from_interface");
    reveal_strlit("from_interface_normalized");
    reveal_strlit("to_device");
    reveal_strlit("to_interface");
    reveal_strlit("to_interface_normalized");
    reveal_strlit("log_type");
    assert("level"@.len() == 5 && "from_device"@.len() == 11 && "from_interface"@.len() == 14);
    assert("to_device"@.len() == 9 && "to_interface"@.len() == 12 && "log_type"@.len() == 8);
}

// ---------------------------------------------------------------------------
// Roles and vendors
// ---------------------------------------------------------------------------
/// `m` is the word `w`, which is in capitals, with each letter in either case.
pub open spec fn in_any_case(m: Seq<char>, w: Seq<char>) -> bool {
    &&& m.len() == w.len()
    &&& forall|i: int|
        0 <= i < w.len() ==> (#[trigger] m[i]) == w[i] || ('A' <= w[i] <= 'Z' && m[i] as int
            == w[i] as int + 32)
}

/// `m` is one of the markers in the names of leaves.
pub open spec fn leaf_marker(m: Seq<char>) -> bool {
    in_any_case(m, "RASW"@) || in_any_case(m, "EHSW "@) || in_any_case(m, "LEAF"@)
}

/// `m` is one of the markers in the names of spines.
pub open spec fn spine_marker(m: Seq<char>) -> bool {
    in_any_case(m, "RDSW"@) || in_any_case(m, "EDSW "@) || in_any_case(m, "SPINE"@)
}

/// A word is no letter in lower case.
spec fn in_capitals(w: Seq<char>) -> bool {
    forall|i: int| 0 <= i < w.len() ==> !('a' <= (#[trigger] w[i]) <= 'z')
}

proof fn lemma_upper_marker(m: Seq<char>, w: Seq<char>)
    requires
        in_capitals(w),
    ensures
        in_any_case(m, w) <==> uppered(m) == w,
{
    if in_any_case(m, w) {
        assert forall|i: int| 0 <= i < w.len() implies uppered(m)[i] == w[i] by {
            assert(m[i] == w[i] || ('A' <= w[i] <= 'Z' && m[i] as int == w[i] as int + 32));
        }
        assert(uppered(m) =~= w);
    }
    if uppered(m) == w {
        assert forall|i: int| 0 <= i < w.len() implies (#[trigger] m[i]) == w[i] || ('A' <= w[i]
            <= 'Z' && m[i] as int == w[i] as int + 32) by {
            assert(uppered(m)[i] == w[i]);
        }
    }
}

proof fn lemma_marker_found(a: Seq<char>, m: Seq<char>, b: Seq<char>, w: Seq<char>)
    requires
        in_capitals(w),
        in_any_case(m, w),
    ensures
        has_text(uppered(a + m + b), w),
{
    lemma_upper_marker(m, w);
    assert(uppered(a + m + b) =~= uppered(a) + uppered(m) + uppered(b));
    crate::text::law_text_holds_its_parts(uppered(a), w, uppered(b));
}

proof fn lemma_marker_part(name: Seq<char>, w: Seq<char>) -> (p: (Seq<char>, Seq<char>, Seq<char>))
    requires
        in_capitals(w),
        has_text(uppered(name), w),
    ensures
        name == p.0 + p.1 + p.2,
        in_any_case(p.1, w),
{
    let u = uppered(name);
    let i = choose|i: int| crate::text::occurs_at(u, w, i);
    let a = name.take(i);
    let m = name.subrange(i, i + w.len());
    let b = name.skip(i + w.len());
    assert(name =~= a + m + b);
    assert(uppered(m) =~= u.subrange(i, i + w.len()));
    lemma_upper_marker(m, w);
    (a, m, b)
}

proof fn lemma_markers_in_capitals()
    ensures
        in_capitals("RASW"@),
        in_capitals("EHSW "@),
        in_capitals("LEAF"@),
        in_capitals("RDSW"@),
        in_capitals("EDSW "@),
        in_capitals("SPINE"@),
{
    reveal_strlit("RASW");
    reveal_strlit("EHSW ");
    reveal_strlit("LEAF");
    reveal_strlit("RDSW");
    reveal_strlit("EDSW ");
    reveal_strlit("SPINE");
}

/// A name that holds a marker of leaves is that of a leaf, wherever in the name the
/// marker stands and in whatever case.
pub proof fn law_leaf_is_known_by_its_marker(a: Seq<char>, m: Seq<char>, b: Seq<char>)
    requires
        leaf_marker(m),
    ensures
        role(a + m + b) is Leaf,
{
    lemma_markers_in_capitals();
    if in_any_case(m, "RASW"@) {
        lemma_marker_found(a, m, b, "RASW"@);
    } else if in_any_case(m, "EHSW "@) {
        lemma_marker_found(a, m, b, "EHSW "@);
    } else {
        lemma_marker_found(a, m, b, "LEAF"@);
    }
}

/// A name that holds no marker of leaves is that of a spine where it holds a marker of
/// spines, wherever it stands and in whatever case, and else that of a node.
pub proof fn law_spine_is_known_by_its_marker(name: Seq<char>)
    requires
        forall|a: Seq<char>, m: Seq<char>, b: Seq<char>|
            name == #[trigger] (a + m + b) ==> !leaf_marker(m),
    ensures
        role(name) is Spine <==> exists|a: Seq<char>, m: Seq<char>, b: Seq<char>|
            name == #[trigger] (a + m + b) && spine_marker(m),
        role(name) is Node <==> forall|a: Seq<char>, m: Seq<char>, b: Seq<char>|
            name == #[trigger] (a + m + b) ==> !spine_marker(m),
{
    lemma_markers_in_capitals();
    let u = uppered(name);
    if has_text(u, "RASW"@) {
        let p = lemma_marker_part(name, "RASW"@);
        assert(name == p.0 + p.1 + p.2);
    }
    if has_text(u, "EHSW "@) {
        let p = lemma_marker_part(name, "EHSW "@);
        assert(name == p.0 + p.1 + p.2);
    }
    if has_text(u, "LEAF"@) {
        let p = lemma_marker_part(name, "LEAF"@);
        assert(name == p.0 + p.1 + p.2);
    }
    assert(role(name) !is Leaf);
    if exists|a: Seq<char>, m: Seq<char>, b: Seq<char>|
        name == #[trigger] (a + m + b) && spine_marker(m) {
        let (a, m, b) = choose|a: Seq<char>, m: Seq<char>, b: Seq<char>|
            name == #[trigger] (a + m + b) && spine_marker(m);
        if in_any_case(m, "RDSW"@) {
            lemma_marker_found(a, m, b, "RDSW"@);
        } else if in_any_case(m, "EDSW "@) {
            lemma_marker_found(a, m, b, "EDSW "@);
        } else {
            lemma_marker_found(a, m, b, "SPINE"@);
        }
    }
    if has_text(u, "RDSW"@) {
        let p = lemma_marker_part(name, "RDSW"@);
        assert(name == p.0 + p.1 + p.2 && spine_marker(p.1));
    }
    if has_text(u, "EDSW "@) {
        let p = lemma_marker_part(name, "EDSW "@);
        assert(name == p.0 + p.1 + p.2 && spine_marker(p.1));
    }
    if has_text(u, "SPINE"@) {
        let p = lemma_marker_part(name, "SPINE"@);
        assert(name == p.0 + p.1 + p.2 && spine_marker(p.1));
    }
}

/// `w` is `m` with each letter in either case; `w` is in small letters.
pub open spec fn small_in_any_case(m: Seq<char>, w: Seq<char>) -> bool {
    &&& m.len() == w.len()
    &&& forall|i: int|
        0 <= i < w.len() ==> (#[trigger] m[i]) == w[i] || ('a' <= w[i] <= 'z' && m[i] as int
            == w[i] as int - 32)
}

proof fn lemma_lower_word(a: Seq<char>, m: Seq<char>, b: Seq<char>, w: Seq<char>)
    requires
        small_in_any_case(m, w),
        forall|i: int| 0 <= i < w.len() ==> !('A' <= (#[trigger] w[i]) <= 'Z'),
    ensures
        has_text(lowered(a + m + b), w),
{
    assert forall|i: int| 0 <= i < w.len() implies lowered(m)[i] == w[i] by {
        assert(m[i] == w[i] || ('a' <= w[i] <= 'z' && m[i] as int == w[i] as int - 32));
    }
    assert(lowered(m) =~= w);
    assert(lowered(a + m + b) =~= lowered(a) + lowered(m) + lowered(b));
    crate::text::law_text_holds_its_parts(lowered(a), w, lowered(b));
}

/// A description that names a maker, anywhere and in any case of letters, tells of
/// that maker; of several makers the first of CNIT, H3C and Huawei counts.
pub proof fn law_maker_is_known_by_the_description(a: Seq<char>, m: Seq<char>, b: Seq<char>)
    ensures
        small_in_any_case(m, "cnit"@) ==> vendor_of(a + m + b) is CNIT,
        small_in_any_case(m, "h3c"@) && !has_text(lowered(a + m + b), "cnit"@) ==> vendor_of(
            a + m + b,
        ) is H3C,
        small_in_any_case(m, "huawei"@) && !has_text(lowered(a + m + b), "cnit"@) && !has_text(
            lowered(a + m + b),
            "h3c"@,
        ) ==> vendor_of(a + m + b) is Huawei,
        vendor_of(m) is Unknown <==> !has_text(lowered(m), "cnit"@) && !has_text(
            lowered(m),
            "h3c"@,
        ) && !has_text(lowered(m), "huawei"@),
{
    reveal_strlit("cnit");
    reveal_strlit("h3c");
    reveal_strlit("huawei");
    if small_in_any_case(m, "cnit"@) {
        lemma_lower_word(a, m, b, "cnit"@);
    }
    if small_in_any_case(m, "h3c"@) {
        lemma_lower_word(a, m, b, "h3c"@);
    }
    if small_in_any_case(m, "huawei"@) {
        lemma_lower_word(a, m, b, "huawei"@);
    }
}

// ---------------------------------------------------------------------------
// What the events tell
// ---------------------------------------------------------------------------
proof fn lemma_all_field_names()
    ensures
        "timestamp"@.len() == 9 && "timestamp"@[0] == 't',
        "cluster"@.len() == 7,
        "device"@.len() == 6,
        "interface"@.len() == 9 && "interface"@[0] == 'i',
        "interface_normalized"@.len() == 20,
        "out_band_ip"@.len() == 11 && "out_band_ip"@[0] == 'o',
        "type"@.len() == 4,
        "log_type"@.len() == 8,
        "level"@.len() == 5,
        "from_device"@.len() == 11 && "from_device"@[0] == 'f',
        "from_interface"@.len() == 14,
        "from_interface_normalized"@.len() == 25,
        "to_device"@.len() == 9 && "to_device"@[1] == 'o' && "timestamp"@[1] == 'i',
        "to_interface"@.len() == 12,
        "to_interface_normalized"@.len() == 23,
{
    reveal_strlit("timestamp");
    reveal_strlit("cluster");
    reveal_strlit("device");
    reveal_strlit("interface");
    reveal_strlit("interface_normalized");
    reveal_strlit("out_band_ip");
    reveal_strlit("type");
    reveal_strlit("log_type");
    reveal_strlit("level");
    reveal_strlit("from_device");
    reveal_strlit("from_interface");
    reveal_strlit("from_interface_normalized");
    reveal_strlit("to_device");
    reveal_strlit("to_interface");
    reveal_strlit("to_interface_normalized");
}

/// The field holds the text.
pub open spec fn told_as(log: LogView, key: Seq<char>, text: Seq<char>) -> bool {
    log.contains_key(key) && log[key] == ValueView::Text(text)
}

/// The event of an interface tells the device, the interface, the address of the
/// device and its role, and has no field besides.
pub proof fn law_interface_event_tells_the_interface(
    ts: Timestamp,
    cluster: Seq<char>,
    ip: Seq<char>,
    device: Seq<char>,
    port: Seq<char>,
)
    ensures
        ({
            let log = interface_log(ts, cluster, ip, (device, port));
            &&& log.contains_key("timestamp"@) && log["timestamp"@] == ValueView::Timestamp(ts)
            &&& told_as(log, "cluster"@, cluster)
            &&& told_as(log, "device"@, device)
            &&& told_as(log, "interface"@, port)
            &&& told_as(log, "interface_normalized"@, port)
            &&& told_as(log, "out_band_ip"@, ip)
            &&& told_as(log, "log_type"@, "interface"@)
            &&& role(device) is Leaf ==> told_as(log, "type"@, "leaf"@)
            &&& role(device) is Spine ==> told_as(log, "type"@, "spine"@)
            &&& role(device) is Node ==> told_as(log, "type"@, "node"@)
            &&& forall|k: Seq<char>| #[trigger]
                log.contains_key(k) ==> k == "timestamp"@ || k == "cluster"@ || k == "device"@ || k
                    == "interface"@ || k == "interface_normalized"@ || k == "out_band_ip"@ || k
                    == "type"@ || k == "log_type"@
        }),
{
    lemma_all_field_names();
}

/// The event of a link tells both ends, from the node to the leaf where a leaf told of
/// a node, and else from the device that told of it; the level is `1` from a leaf to a
/// spine, `2` between a leaf and a node, and else none.
pub proof fn law_link_event_tells_both_ends(ts: Timestamp, cluster: Seq<char>, n: NeighborView)
    ensures
        ({
            let log = link_log(ts, cluster, n);
            let leaf = role(n.local_device) is Leaf;
            let turned = leaf && role(n.remote_device) is Node;
            &&& log.contains_key("timestamp"@) && log["timestamp"@] == ValueView::Timestamp(ts)
            &&& told_as(log, "cluster"@, cluster)
            &&& told_as(log, "log_type"@, "link"@)
            &&& turned ==> {
                &&& told_as(log, "from_device"@, n.remote_device)
                &&& told_as(log, "from_interface"@, n.remote_port)
                &&& told_as(log, "from_interface_normalized"@, n.remote_port)
                &&& told_as(log, "to_device"@, n.local_device)
                &&& told_as(log, "to_interface"@, n.local_port)
                &&& told_as(log, "to_interface_normalized"@, n.local_port)
            }
            &&& !turned ==> {
                &&& told_as(log, "from_device"@, n.local_device)
                &&& told_as(log, "from_interface"@, n.local_port)
                &&& told_as(log, "from_interface_normalized"@, n.local_port)
                &&& told_as(log, "to_device"@, n.remote_device)
                &&& told_as(log, "to_interface"@, n.remote_port)
                &&& told_as(log, "to_interface_normalized"@, n.remote_port)
            }
            &&& leaf && role(n.remote_device) is Spine ==> told_as(log, "level"@, "1"@)
            &&& turned ==> told_as(log, "level"@, "2"@)
            &&& !leaf || role(n.remote_device) is Leaf ==> log.contains_key("level"@)
                && log["level"@] is Null
            &&& forall|k: Seq<char>| #[trigger]
                log.contains_key(k) ==> k == "timestamp"@ || k == "cluster"@ || k == "level"@ || k
                    == "from_device"@ || k == "from_interface"@ || k == "from_interface_normalized"@
                    || k == "to_device"@ || k == "to_interface"@ || k == "to_interface_normalized"@
                    || k == "log_type"@
        }),
{
    lemma_all_field_names();
}

/// Links of devices whose names begin with `O` or `RMSW`, in capitals or in small
/// letters, are not told, nor those that a spine tells of to a leaf.
pub open spec fn worth_telling(n: NeighborView) -> bool {
    let d = n.local_device;
    &&& !(d.len() > 0 && (d[0] == 'O' || d[0] == 'o'))
    &&& !(d.len() >= 4 && d[0] == 'R' && d[1] == 'M' && d[2] == 'S' && d[3] == 'W')
    &&& !(d.len() >= 4 && d[0] == 'r' && d[1] == 'm' && d[2] == 's' && d[3] == 'w')
    &&& !(role(d) is Spine && role(n.remote_device) is Leaf)
}

proof fn lemma_worth_telling(n: NeighborView)
    ensures
        told(n) <==> worth_telling(n),
{
    let d = n.local_device;
    reveal_strlit("O");
    reveal_strlit("o");
    reveal_strlit("RMSW");
    reveal_strlit("rmsw");
    assert("O"@.is_prefix_of(d) <==> d.len() > 0 && d[0] == 'O') by {
        if d.len() > 0 && d[0] == 'O' {
            assert("O"@ =~= d.take(1));
        }
        if "O"@.is_prefix_of(d) {
            assert(d.take(1)[0] == 'O');
        }
    }
    assert("o"@.is_prefix_of(d) <==> d.len() > 0 && d[0] == 'o') by {
        if d.len() > 0 && d[0] == 'o' {
            assert("o"@ =~= d.take(1));
        }
        if "o"@.is_prefix_of(d) {
            assert(d.take(1)[0] == 'o');
        }
    }
    assert("RMSW"@.is_prefix_of(d) <==> d.len() >= 4 && d[0] == 'R' && d[1] == 'M' && d[2] == 'S'
        && d[3] == 'W') by {
        if d.len() >= 4 && d[0] == 'R' && d[1] == 'M' && d[2] == 'S' && d[3] == 'W' {
            assert("RMSW"@ =~= d.take(4));
        }
        if "RMSW"@.is_prefix_of(d) {
            assert(d.take(4)[0] == 'R' && d.take(4)[1] == 'M' && d.take(4)[2] == 'S' && d.take(4)[3]
                == 'W');
        }
    }
    assert("rmsw"@.is_prefix_of(d) <==> d.len() >= 4 && d[0] == 'r' && d[1] == 'm' && d[2] == 's'
        && d[3] == 'w') by {
        if d.len() >= 4 && d[0] == 'r' && d[1] == 'm' && d[2] == 's' && d[3] == 'w' {
            assert("rmsw"@ =~= d.take(4));
        }
        if "rmsw"@.is_prefix_of(d) {
            assert(d.take(4)[0] == 'r' && d.take(4)[1] == 'm' && d.take(4)[2] == 's' && d.take(4)[3]
                == 'w');
        }
    }
}

/// There is one event for each link that is worth telling, in the order of the links.
pub proof fn law_links_worth_telling_are_told(
    ts: Timestamp,
    cluster: Seq<char>,
    ns: Seq<NeighborView>,
)
    ensures
        link_logs(ts, cluster, ns) == ns.filter(|n: NeighborView| worth_telling(n)).map_values(
            |n: NeighborView| link_log(ts, cluster, n),
        ),
    decreases ns.len(),
{
    reveal(Seq::filter);
    let p = |n: NeighborView| worth_telling(n);
    let f = |n: NeighborView| link_log(ts, cluster, n);
    if ns.len() > 0 {
        let rest = ns.drop_last();
        law_links_worth_telling_are_told(ts, cluster, rest);
        lemma_worth_telling(ns.last());
        assert(rest.filter(p).push(ns.last()).map_values(f) =~= rest.filter(p).map_values(f).push(
            link_log(ts, cluster, ns.last()),
        ));
    }
    assert(link_logs(ts, cluster, ns) =~= ns.filter(p).map_values(f));
}

/// The events of a device are one for each interface, in their order, and behind them
/// one for each link that is worth telling.
pub proof fn law_interfaces_come_before_links(
    ts: Timestamp,
    interfaces: Seq<InterfaceView>,
    neighbors: Seq<NeighborView>,
    cluster: Seq<char>,
    ip: Seq<char>,
    i: int,
)
    ensures
        ({
            let all = topology_logs(ts, interfaces, neighbors, cluster, ip);
            let worth = neighbors.filter(|n: NeighborView| worth_telling(n));
            &&& all.len() == interfaces.len() + worth.len()
            &&& 0 <= i < interfaces.len() ==> all[i] == interface_log(
                ts,
                cluster,
                ip,
                interfaces[i],
            )
            &&& 0 <= i < worth.len() ==> all[interfaces.len() + i] == link_log(
                ts,
                cluster,
                worth[i],
            )
        }),
{
    law_links_worth_telling_are_told(ts, cluster, neighbors);
}

/// Each description of a port is an interface of the device.
pub proof fn law_each_port_is_an_interface(
    device: Seq<char>,
    ports: Seq<(Seq<char>, Seq<char>)>,
    i: int,
)
    ensures
        interfaces_of(device, ports).len() == ports.len(),
        0 <= i < ports.len() ==> interfaces_of(device, ports)[i].0 == device && interfaces_of(
            device,
            ports,
        )[i].1 == ports[i].1,
{
}

/// In an index of three parts and more the last part but one is the local port, also
/// in one of two parts; an index of one part is the port itself.
pub proof fn law_local_port_is_the_last_part_but_one(
    before: Seq<char>,
    port: Seq<char>,
    last: Seq<char>,
)
    requires
        forall|i: int| 0 <= i < port.len() ==> #[trigger] port[i] != '.',
        forall|i: int| 0 <= i < last.len() ==> #[trigger] last[i] != '.',
    ensures
        local_port_number(before + seq!['.'] + port + seq!['.'] + last) == port,
        local_port_number(port + seq!['.'] + last) == port,
        local_port_number(port) == port,
{
    let dot = seq!['.'];
    assert(dot[0] == '.');
    assert(dot.contains('.'));
    assert(forall|c: char| dot.contains(c) ==> c == '.');
    crate::split::lemma_pieces_none(port, dot);
    crate::split::lemma_pieces_append(port, '.', last, dot);
    crate::split::lemma_pieces_append(before, '.', port, dot);
    crate::split::lemma_pieces_append(before + dot + port, '.', last, dot);
    let p = pieces(before + dot + port + dot + last, dot);
    assert(p == pieces(before, dot).push(port).push(last));
    assert(p[p.len() - 2] == port);
    let q = pieces(port + dot + last, dot);
    assert(q == seq![port].push(last));
    assert(q[q.len() - 2] == port);
}

/// The links are told one by one, in the order of the neighbors.
pub proof fn law_neighbors_are_linked_in_order(
    device: Seq<char>,
    loc_ports: Map<Seq<char>, Seq<char>>,
    before: Seq<(Seq<char>, Seq<char>)>,
    index: Seq<char>,
    remote: Seq<char>,
    rem_port: Map<Seq<char>, Seq<char>>,
)
    ensures
        ({
            let had = neighbors_of(device, loc_ports, before, rem_port);
            let has = neighbors_of(device, loc_ports, before.push((index, remote)), rem_port);
            if rem_port.contains_key(index) && loc_ports.contains_key(local_port_number(index)) {
                has.drop_last() == had && has.len() == had.len() + 1
            } else {
                has == had
            }
        }),
        neighbors_of(device, loc_ports, Seq::empty(), rem_port).len() == 0,
{
    let all = before.push((index, remote));
    assert(all.drop_last() =~= before);
    assert(all.last() == (index, remote));
    let had = neighbors_of(device, loc_ports, before, rem_port);
    let has = neighbors_of(device, loc_ports, all, rem_port);
    if rem_port.contains_key(index) && loc_ports.contains_key(local_port_number(index)) {
        assert(has.drop_last() =~= had);
    }
}

/// The walks ask for the descriptions of the interfaces, for the local ports, for the
/// names of the neighbors and for their ports.
pub proof fn law_walks_ask_for_interfaces_and_neighbors(i: int)
    ensures
        i == 0 ==> walk_oid(i) == IF_DESCR@,
        i == 1 ==> walk_oid(i) == "1.0.8802.1.1.2.1.3.7.1.3"@,
        i == 2 ==> walk_oid(i) == "1.0.8802.1.1.2.1.4.1.1.9"@,
        i == 3 ==> walk_oid(i) == "1.0.8802.1.1.2.1.4.1.1.7"@,
        IF_DESCR@ == "1.3.6.1.2.1.2.2.1.2"@,
        SYS_NAME@ == "1.3.6.1.2.1.1.5.0"@,
        SYS_DESCR@ == "1.3.6.1.2.1.1.1.0"@,
{
}

/// The events of a cluster are those of each target that could be asked, in their
/// order; a target that could not be asked takes nothing from the others.
pub proof fn law_failed_targets_take_nothing(
    before: Seq<Result<Vec<LogEvent>, String>>,
    r: Result<Vec<LogEvent>, String>,
)
    ensures
        all_logs(Seq::<Result<Vec<LogEvent>, String>>::empty()).len() == 0,
        r is Err ==> all_logs(before.push(r)) == all_logs(before),
        r matches Ok(logs) ==> {
            &&& all_logs(before.push(r)).len() == all_logs(before).len() + logs@.len()
            &&& all_logs(before.push(r)).take(all_logs(before).len() as int) == all_logs(before)
            &&& forall|i: int|
                0 <= i < logs@.len() ==> all_logs(before.push(r))[all_logs(before).len() + i]
                    == (#[trigger] logs@[i])@
        },
{
    assert(before.push(r).drop_last() =~= before);
    assert(before.push(r).last() == r);
    match r {
        Ok(logs) => {
            let all = all_logs(before.push(r));
            assert(all.take(all_logs(before).len() as int) =~= all_logs(before));
            assert forall|i: int| 0 <= i < logs@.len() implies all[all_logs(before).len() + i] == (
            #[trigger] logs@[i])@ by {
                assert(log_views(logs@)[i] == logs@[i]@);
            }
        },
        Err(_) => {},
    }
}

/// The maker of a switch is that of the description that it told, and is not known where
/// it told none.
pub proof fn law_maker_is_the_told_one(out: String, e: String, description: Seq<char>)
    ensures
        answer_text(out@) == Ok::<Seq<char>, Seq<char>>(description) ==> told_vendor(Ok(out))
            == vendor_of(description),
        answer_text(out@) is Err ==> told_vendor(Ok(out)) is Unknown,
        told_vendor(Err(e)) is Unknown,
{
    let none = Seq::<char>::empty();
    reveal_strlit("cnit");
    reveal_strlit("h3c");
    reveal_strlit("huawei");
    law_maker_is_known_by_the_description(none, none, none);
    assert(lowered(none).len() == 0);
}

/// A switch that told its name is asked for its interfaces, then for its local ports,
/// then for the names of its neighbors and then for their ports; what it answers is kept
/// under what it was asked for, and from the four answers come its interfaces and its
/// links. The first failure ends it, and changes nothing of what is known.
pub proof fn law_switch_is_asked_in_order(
    transport: TransportView,
    ip: Seq<char>,
    before: SwitchKnown,
    output: Result<String, String>,
    after: SwitchKnown,
    step: SwitchStep,
)
    requires
        switch_follows(transport, ip, before, output, after, step),
        before.1.len() < 4,
    ensures
        output is Err ==> after == before && step is Failed && step->Failed_0@ == output->Err_0@,
        output is Ok && before.0 is None ==> after.1 == before.1 && (step is Failed || step is Run),
        output is Ok && before.0 is None ==> (answer_text(output->Ok_0@) matches Ok(name)
            ==> after.0 == Some(name) && step_asks(
            step,
            "snmpwalk"@,
            transport,
            ip,
            "1.3.6.1.2.1.2.2.1.2"@,
        )),
        output is Ok && before.0 is Some ==> {
            let k = before.1.len();
            let lines = lines_of(output->Ok_0@);
            &&& after.0 == before.0
            &&& after.1 == before.1.push(after.1[k as int])
            &&& k == 0 ==> text_map(after.1[0]) == walk_of(lines, "1.3.6.1.2.1.2.2.1.2"@)
                && step_asks(step, "snmpwalk"@, transport, ip, "1.0.8802.1.1.2.1.3.7.1.3"@)
            &&& k == 1 ==> text_map(after.1[1]) == walk_of(lines, "1.0.8802.1.1.2.1.3.7.1.3"@)
                && step_asks(step, "snmpwalk"@, transport, ip, "1.0.8802.1.1.2.1.4.1.1.9"@)
            &&& k == 2 ==> text_map(after.1[2]) == walk_of(lines, "1.0.8802.1.1.2.1.4.1.1.9"@)
                && step_asks(step, "snmpwalk"@, transport, ip, "1.0.8802.1.1.2.1.4.1.1.7"@)
            &&& k == 3 ==> {
                &&& text_map(after.1[3]) == walk_of(lines, "1.0.8802.1.1.2.1.4.1.1.7"@)
                &&& step is Done
                &&& interface_views(step->interfaces@) == interfaces_of(
                    before.0->0,
                    text_rows(before.1[0]),
                )
                &&& neighbor_views(step->neighbors@) == neighbors_of(
                    before.0->0,
                    text_map(before.1[1]),
                    text_rows(before.1[2]),
                    text_map(after.1[3]),
                )
            }
        },
{
    if output is Ok && before.0 is Some {
        let k = before.1.len() as int;
        assert(after.1 =~= before.1.push(after.1[k])) by {
            assert(after.1.drop_last() =~= before.1);
            assert forall|i: int| 0 <= i < k implies after.1[i] == before.1[i] by {
                assert(after.1.drop_last()[i] == after.1[i]);
            }
        }
        assert(after.1.last() == after.1[k]);
    }
}

/// A step that asks runs the program with what identifies the one who asks, and behind
/// that the address of the switch and what is asked for.
pub proof fn law_asking_names_the_switch_and_the_question(
    s: SwitchStep,
    program: Seq<char>,
    t: TransportView,
    target: Seq<char>,
    oid: Seq<char>,
)
    requires
        step_asks(s, program, t, target, oid),
    ensures
        s !is Done,
        s is Run <==> super::transport::identity_args(t) is Ok,
        s matches SwitchStep::Run(c) ==> {
            let n = c.args@.len();
            &&& c.program@ == program
            &&& n >= 2
            &&& c.args@[n - 2]@ == target
            &&& c.args@[n - 1]@ == oid
        },
{
    if let SwitchStep::Run(c) = s {
        let args = crate::text::texts(c.args@);
        let a = super::transport::identity_args(t)->Ok_0;
        assert(args.len() == c.args@.len());
        assert(args[args.len() - 2] == target);
        assert(args[args.len() - 1] == oid);
    }
}

/// A field of that name is described, and holds what `kind` says.
pub open spec fn described(
    fields: Seq<crate::schema::FieldView>,
    name: Seq<char>,
    kind: crate::schema::FieldKind,
) -> bool {
    exists|i: int| 0 <= i < fields.len() && (#[trigger] fields[i]).0 == name && fields[i].1 == kind
}

/// What the source promises of its events holds: every field of an event is described,
/// the moment as a moment and any other as a text, and every described field occurs.
pub proof fn law_events_have_the_described_fields(
    ts: Timestamp,
    cluster: Seq<char>,
    ip: Seq<char>,
    i: InterfaceView,
    n: NeighborView,
    k: Seq<char>,
)
    ensures
        ({
            let fields = super::config::topology_fields();
            let kind = if k == "timestamp"@ {
                crate::schema::FieldKind::Timestamp
            } else {
                crate::schema::FieldKind::Bytes
            };
            let told = interface_log(ts, cluster, ip, i).contains_key(k) || link_log(
                ts,
                cluster,
                n,
            ).contains_key(k);
            &&& told ==> described(fields, k, kind)
            &&& forall|j: int|
                0 <= j < fields.len() && (#[trigger] fields[j]).0 == k ==> told && fields[j].1 == kind
        }),
{
    lemma_all_field_names();
    let fields = super::config::topology_fields();
    assert(fields[0].0 == "timestamp"@ && fields[1].0 == "cluster"@ && fields[2].0 == "device"@);
    assert(fields[3].0 == "interface"@ && fields[4].0 == "interface_normalized"@);
    assert(fields[5].0 == "out_band_ip"@ && fields[6].0 == "type"@ && fields[7].0 == "from_device"@);
    assert(fields[8].0 == "from_interface"@ && fields[9].0 == "from_interface_normalized"@);
    assert(fields[10].0 == "to_device"@ && fields[11].0 == "to_interface"@);
    assert(fields[12].0 == "to_interface_normalized"@ && fields[13].0 == "log_type"@);
    assert(fields[14].0 == "level"@);
}

/// Interfaces and links are read field by field.
pub proof fn law_topology_fields_are_read(i: LocalInterface, n: LldpNeighbor)
    ensures
        i@ == (i.device@, i.port@),
        n@.local_device == n.local_device@ && n@.local_port == n.local_port@,
        n@.remote_device == n.remote_device@ && n@.remote_port == n.remote_port@,
{
}

} // verus!

//! Configuration.
use vstd::prelude::*;

use crate::schema::{FieldKind, FieldView, SourceOutput};
use crate::text::{copy, opt_text, texts};

verus! {

/// The version of the protocol.
#[derive(Clone, Copy, Debug, PartialEq, Eq, Structural)]
pub enum SnmpVersion {
    /// Version 1, which identifies by a community.
    V1,
    /// Version 2c, which identifies by a community.
    V2c,
    /// Version 3, which identifies by a user and a security level.
    V3,
}

/// The switches of one cluster, and how they are asked.
#[derive(Clone, Debug)]
pub struct SnmpClusterConfig {
    /// The cluster's name.
    pub name: String,
    /// The addresses of its switches.
    pub targets: Vec<String>,
    /// The version of the protocol.
    pub version: SnmpVersion,
    /// The community, for versions 1 and 2c.
    pub community: Option<String>,
    /// The user, for version 3.
    pub user: Option<String>,
    /// How the user is authenticated: MD5 or SHA.
    pub auth_protocol: Option<String>,
    /// The password for authentication.
    pub auth_password: Option<String>,
    /// `noAuthNoPriv`, `authNoPriv` or `authPriv`, for version 3.
    pub security_level: Option<String>,
    /// How messages are kept secret: AES or DES.
    pub priv_protocol: Option<String>,
    /// The password for secrecy.
    pub priv_password: Option<String>,
    /// How long to wait between two rounds, in seconds.
    pub scrape_interval_secs: u64,
}

/// The clusters that are asked.
#[derive(Clone, Debug)]
pub struct SnmpSwitchLldpConfig {
    /// The clusters.
    pub clusters: Vec<SnmpClusterConfig>,
}

/// How long to wait between two rounds, where nothing is configured.
pub fn default_interval() -> (r: u64)
    ensures
        r == 60,
{
    60
}

/// The version that is taken where none is configured.
pub fn default_version() -> (r: SnmpVersion)
    ensures
        r == SnmpVersion::V3,
{
    SnmpVersion::V3
}

impl Default for SnmpSwitchLldpConfig {
    fn default() -> (r: SnmpSwitchLldpConfig)
        ensures
            r.clusters@.len() == 1,
            ({
                let c = r.clusters@[0];
                &&& c.name@ == "default"@
                &&& texts(c.targets@) == seq!["127.0.0.1"@]
                &&& c.version == SnmpVersion::V3
                &&& c.community is None
                &&& opt_text(c.user) == Some("snmp_user"@)
                &&& opt_text(c.auth_protocol) == Some("MD5"@)
                &&& opt_text(c.auth_password) == Some("password"@)
                &&& opt_text(c.security_level) == Some("authNoPriv"@)
                &&& c.priv_protocol is None
                &&& c.priv_password is None
                &&& c.scrape_interval_secs == 60
            }),
    {
        let mut targets: Vec<String> = Vec::new();
        targets.push(copy("127.0.0.1"));
        assert(texts(targets@) =~= seq!["127.0.0.1"@]);
        let mut clusters: Vec<SnmpClusterConfig> = Vec::new();
        clusters.push(
            SnmpClusterConfig {
                name: copy("default"),
                targets,
                version: default_version(),
                community: None,
                user: Some(copy("snmp_user")),
                auth_protocol: Some(copy("MD5")),
                auth_password: Some(copy("password")),
                security_level: Some(copy("authNoPriv")),
                priv_protocol: None,
                priv_password: None,
                scrape_interval_secs: default_interval(),
            },
        );
        SnmpSwitchLldpConfig { clusters }
    }
}

/// The fields of the events that tell of interfaces and links.
pub open spec fn topology_fields() -> Seq<FieldView> {
    seq![
        ("timestamp"@, FieldKind::Timestamp, "Time when the event was observed"@),
        ("cluster"@, FieldKind::Bytes, "Cluster identifier"@),
        ("device"@, FieldKind::Bytes, "Device name"@),
        ("interface"@, FieldKind::Bytes, "Interface name"@),
        ("interface_normalized"@, FieldKind::Bytes, "Normalized interface name"@),
        ("out_band_ip"@, FieldKind::Bytes, "Out-of-band IP address"@),
        ("type"@, FieldKind::Bytes, "Device type (leaf/spine/node)"@),
        ("from_device"@, FieldKind::Bytes, "Source device in connection"@),
        ("from_interface"@, FieldKind::Bytes, "Source interface in connection"@),
        ("from_interface_normalized"@, FieldKind::Bytes, "Normalized source interface name"@),
        ("to_device"@, FieldKind::Bytes, "Destination device in connection"@),
        ("to_interface"@, FieldKind::Bytes, "Destination interface in connection"@),
        ("to_interface_normalized"@, FieldKind::Bytes, "Normalized destination interface name"@),
        ("log_type"@, FieldKind::Bytes, "Type of log: interface or link"@),
        ("level"@, FieldKind::Bytes, "Connection level"@),
    ]
}

impl SnmpSwitchLldpConfig {
    /// What the source puts out.
    pub fn outputs(&self) -> (r: Vec<SourceOutput>)
        ensures
            r@.len() == 1,
            r@[0].data_type is Log,
            r@[0].field_views() == topology_fields(),
    {
        let o = SourceOutput::logs().with_event_field(
            "timestamp",
            FieldKind::Timestamp,
            "Time when the event was observed",
        ).with_event_field("cluster", FieldKind::Bytes, "Cluster identifier").with_event_field(
            "device",
            FieldKind::Bytes,
            "Device name",
        ).with_event_field("interface", FieldKind::Bytes, "Interface name").with_event_field(
            "interface_normalized",
            FieldKind::Bytes,
            "Normalized interface name",
        ).with_event_field(
            "out_band_ip",
            FieldKind::Bytes,
            "Out-of-band IP address",
        ).with_event_field(
            "type",
            FieldKind::Bytes,
            "Device type (leaf/spine/node)",
        ).with_event_field(
            "from_device",
            FieldKind::Bytes,
            "Source device in connection",
        ).with_event_field(
            "from_interface",
            FieldKind::Bytes,
            "Source interface in connection",
        ).with_event_field(
            "from_interface_normalized",
            FieldKind::Bytes,
            "Normalized source interface name",
        ).with_event_field(
            "to_device",
            FieldKind::Bytes,
            "Destination device in connection",
        ).with_event_field(
            "to_interface",
            FieldKind::Bytes,
            "Destination interface in connection",
        ).with_event_field(
            "to_interface_normalized",
            FieldKind::Bytes,
            "Normalized destination interface name",
        ).with_event_field(
            "log_type",
            FieldKind::Bytes,
            "Type of log: interface or link",
        ).with_event_field("level", FieldKind::Bytes, "Connection level");
        assert(o.field_views() =~= topology_fields());
        let mut r: Vec<SourceOutput> = Vec::new();
        r.push(o);
        r
    }

    /// Whether delivery is confirmed: it is not.
    pub fn can_acknowledge(&self) -> (r: bool)
        ensures
            !r,
    {
        false
    }
}

} // verus!

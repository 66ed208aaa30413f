use telemetry_collectors::clock::Timestamp;
use telemetry_collectors::log::{LogEvent, Value};
use telemetry_collectors::process::ProcessOutput;
use telemetry_collectors::schema::{DataType, FieldKind};
use telemetry_collectors::snmp::config::{
    default_interval, SnmpClusterConfig, SnmpSwitchLldpConfig, SnmpVersion,
};
use telemetry_collectors::snmp::parse::{
    normalize_oid, parse_snmp_value, parse_walk, process_snmp_value,
};
use telemetry_collectors::snmp::topology::{
    collect_cluster_logs, collect_single_target, detect_vendor, device_role, init_target,
    neighbors_to_logs, neighbors_to_logs_at, LldpNeighbor, LocalInterface, SwitchScrape,
    SwitchStep, Target, Vendor,
};
use telemetry_collectors::snmp::transport::{
    asked_target, cluster_transports, run_complaint, run_snmp, SnmpCommand, SnmpTransport,
};

/// A cluster of which only the version is set.
fn cluster(version: SnmpVersion) -> SnmpClusterConfig {
    SnmpClusterConfig {
        name: "test".to_string(),
        targets: vec!["127.0.0.1".to_string()],
        version,
        community: None,
        user: None,
        auth_protocol: None,
        auth_password: None,
        security_level: None,
        priv_protocol: None,
        priv_password: None,
        scrape_interval_secs: default_interval(),
    }
}

/// A whole cluster of version 3.
fn v3_cluster(security_level: &str) -> SnmpClusterConfig {
    let mut config = cluster(SnmpVersion::V3);
    config.user = Some("snmp_user".to_string());
    config.security_level = Some(security_level.to_string());
    config.auth_protocol = Some("MD5".to_string());
    config.auth_password = Some("snmppwv3".to_string());
    config
}

fn text(log: &LogEvent, key: &str) -> String {
    match log.get(key) {
        Some(Value::Text(s)) => s.clone(),
        other => panic!("{} holds {:?}", key, other),
    }
}

fn neighbor(local: &str, remote: &str) -> LldpNeighbor {
    LldpNeighbor {
        local_device: local.to_string(),
        local_port: "lp".to_string(),
        remote_device: remote.to_string(),
        remote_port: "rp".to_string(),
    }
}

const TS: Timestamp = Timestamp { secs: 12, nanos: 34 };

fn links(neighbors: Vec<LldpNeighbor>) -> Vec<LogEvent> {
    neighbors_to_logs_at(TS, &vec![], &neighbors, "c1", "10.0.0.1")
}

#[test]
fn v2c_builds_community_command() {
    let mut config = cluster(SnmpVersion::V2c);
    config.community = Some("public".to_string());

    let transport = SnmpTransport::from_cluster(&config).unwrap();
    assert_eq!(transport.build_args().unwrap(), vec!["-v2c", "-c", "public"]);
}

#[test]
fn v1_builds_community_command() {
    let mut config = cluster(SnmpVersion::V1);
    config.community = Some("public".to_string());

    let transport = SnmpTransport::from_cluster(&config).unwrap();
    assert_eq!(transport.build_args().unwrap(), vec!["-v1", "-c", "public"]);
}

#[test]
fn v3_builds_usm_command() {
    let config = v3_cluster("authNoPriv");

    let transport = SnmpTransport::from_cluster(&config).unwrap();
    assert_eq!(
        transport.build_args().unwrap(),
        vec!["-v3", "-l", "authNoPriv", "-u", "snmp_user", "-a", "MD5", "-A", "snmppwv3"]
    );
}

#[test]
fn v2c_requires_community() {
    let config = cluster(SnmpVersion::V2c);

    assert!(SnmpTransport::from_cluster(&config).is_err());
}

#[test]
fn v3_requires_user_and_security_level() {
    let config = cluster(SnmpVersion::V3);

    assert!(SnmpTransport::from_cluster(&config).is_err());
}

#[test]
fn auth_priv_requires_priv_params() {
    let config = v3_cluster("authPriv");

    assert!(SnmpTransport::from_cluster(&config).is_err());
}

#[test]
fn unknown_security_level_is_rejected() {
    let config = v3_cluster("noSuchLevel");

    let error = SnmpTransport::from_cluster(&config).err().unwrap();
    assert!(error.contains("invalid security_level"), "got: {}", error);
}

#[test]
fn what_is_missing_is_named() {
    let message = |c: &SnmpClusterConfig| SnmpTransport::from_cluster(c).err().unwrap();
    assert_eq!(
        message(&cluster(SnmpVersion::V2c)),
        "SNMP V2c requires `community` to be set"
    );
    assert_eq!(message(&cluster(SnmpVersion::V1)), "SNMP V1 requires `community` to be set");
    let mut empty = cluster(SnmpVersion::V1);
    empty.community = Some(String::new());
    assert_eq!(message(&empty), "SNMP V1 requires `community` to be set");
    assert_eq!(message(&cluster(SnmpVersion::V3)), "SNMP V3 requires `user` to be set");
    let mut config = v3_cluster("authNoPriv");
    config.security_level = None;
    assert_eq!(message(&config), "SNMP V3 requires `security_level` to be set");
    let mut config = v3_cluster("authNoPriv");
    config.auth_protocol = None;
    config.auth_password = None;
    assert_eq!(message(&config), "SNMP V3 requires `auth_protocol` to be set");
    assert_eq!(
        message(&v3_cluster("authPriv")),
        "SNMP V3 requires `priv_protocol` to be set"
    );
    assert_eq!(message(&v3_cluster("noSuchLevel")), "invalid security_level: noSuchLevel");
}

#[test]
fn secrecy_comes_last() {
    let mut config = v3_cluster("authPriv");
    config.priv_protocol = Some("AES".to_string());
    config.priv_password = Some("pw".to_string());
    let transport = SnmpTransport::from_cluster(&config).unwrap();
    assert_eq!(
        transport.build_args().unwrap(),
        vec![
            "-v3", "-l", "authPriv", "-u", "snmp_user", "-a", "MD5", "-A", "snmppwv3", "-x", "AES",
            "-X", "pw"
        ]
    );
    let open = SnmpTransport::from_cluster(&v3_cluster("noAuthNoPriv")).unwrap();
    assert_eq!(
        open.build_args().unwrap(),
        vec!["-v3", "-l", "noAuthNoPriv", "-u", "snmp_user"]
    );
}

#[test]
fn the_default_cluster_can_be_asked() {
    let config = SnmpSwitchLldpConfig::default();
    assert_eq!(config.clusters.len(), 1);
    assert_eq!(config.clusters[0].name, "default");
    assert_eq!(config.clusters[0].targets, vec!["127.0.0.1"]);
    assert_eq!(config.clusters[0].version, SnmpVersion::V3);
    assert_eq!(config.clusters[0].scrape_interval_secs, 60);
    let transports = cluster_transports(&config).unwrap();
    assert_eq!(transports.len(), 1);
    assert_eq!(
        transports[0].build_args().unwrap(),
        vec!["-v3", "-l", "authNoPriv", "-u", "snmp_user", "-a", "MD5", "-A", "password"]
    );
}

#[test]
fn the_first_bad_cluster_is_named() {
    let config = SnmpSwitchLldpConfig {
        clusters: vec![
            v3_cluster("authNoPriv"),
            cluster(SnmpVersion::V1),
            cluster(SnmpVersion::V3),
        ],
    };
    assert_eq!(
        cluster_transports(&config).err().unwrap(),
        "SNMP V1 requires `community` to be set"
    );
}

#[test]
fn values_lose_their_types_and_quotes() {
    assert_eq!(process_snmp_value(" STRING: \"eth0\" "), "eth0");
    assert_eq!(process_snmp_value("Hex-STRING: 00 1A"), "00 1A");
    assert_eq!(process_snmp_value("INTEGER: 5"), "INTEGER: 5");
    assert_eq!(process_snmp_value("\"\"a\"\""), "a");
    assert_eq!(process_snmp_value("STRING:STRING: x"), "STRING: x");
}

#[test]
fn answers_follow_the_first_string() {
    assert_eq!(
        parse_snmp_value("iso.3.6 = STRING: \"LEAF-1\"\n"),
        Ok("LEAF-1".to_string())
    );
    assert_eq!(
        parse_snmp_value("iso.3.6 = INTEGER: 4"),
        Err("invalid snmp output: iso.3.6 = INTEGER: 4".to_string())
    );
    assert_eq!(parse_snmp_value("STRING:"), Ok(String::new()));
}

#[test]
fn oids_begin_with_numbers() {
    assert_eq!(normalize_oid("iso.3.6.1"), "1.3.6.1");
    assert_eq!(normalize_oid("1.3.6.1"), "1.3.6.1");
    assert_eq!(normalize_oid("iso3"), "iso3");
}

#[test]
fn walks_are_read_line_by_line() {
    let out = "iso.3.6.1.2.1.2.2.1.2.1 = STRING: \"lo\"\r\nno value here\n\
               iso.3.6.1.2.1.2.2.1.2.7 = STRING: \"eth = 1\"\n\
               iso.3.6.1.2.1.2.2.1.2.1 = STRING: \"lo0\"";
    let walk = parse_walk(out, "1.3.6.1.2.1.2.2.1.2");
    assert_eq!(walk.len(), 2);
    assert_eq!(walk.get("1").map(String::as_str), Some("lo0"));
    assert_eq!(walk.get("7").map(String::as_str), Some("eth = 1"));
}

#[test]
fn vendors_are_told_by_their_descriptions() {
    assert_eq!(detect_vendor("CNIT Switch"), Vendor::CNIT);
    assert_eq!(detect_vendor("h3c huawei"), Vendor::H3C);
    assert_eq!(detect_vendor("HUAWEI CE6800"), Vendor::Huawei);
    assert_eq!(detect_vendor("Arista"), Vendor::Unknown);
    let told = init_target("10.0.0.1", &Ok("x = STRING: \"Huawei\"".to_string()));
    assert_eq!(told.vendor, Vendor::Huawei);
    assert_eq!(told.ip, "10.0.0.1");
    assert_eq!(init_target("10.0.0.1", &Ok("huawei".to_string())).vendor, Vendor::Unknown);
    assert_eq!(init_target("10.0.0.1", &Err("huawei".to_string())).vendor, Vendor::Unknown);
}

#[test]
fn roles_are_told_by_names() {
    assert_eq!(device_role("dc1-rasw-01"), "leaf");
    assert_eq!(device_role("EHSW 1"), "leaf");
    assert_eq!(device_role("ehsw1"), "node");
    assert_eq!(device_role("leaf-spine"), "leaf");
    assert_eq!(device_role("RDSW"), "spine");
    assert_eq!(device_role("edsw 3"), "spine");
    assert_eq!(device_role("Spine-2"), "spine");
    assert_eq!(device_role("gpu-17"), "node");
}

#[test]
fn interfaces_are_told() {
    let interfaces =
        vec![LocalInterface { device: "LEAF-1".to_string(), port: "Eth1/1".to_string() }];
    let logs = neighbors_to_logs_at(TS, &interfaces, &vec![], "c1", "10.0.0.1");
    assert_eq!(logs.len(), 1);
    assert_eq!(text(&logs[0], "cluster"), "c1");
    assert_eq!(text(&logs[0], "device"), "LEAF-1");
    assert_eq!(text(&logs[0], "interface"), "Eth1/1");
    assert_eq!(text(&logs[0], "interface_normalized"), "Eth1/1");
    assert_eq!(text(&logs[0], "out_band_ip"), "10.0.0.1");
    assert_eq!(text(&logs[0], "type"), "leaf");
    assert_eq!(text(&logs[0], "log_type"), "interface");
    match logs[0].get("timestamp") {
        Some(Value::Timestamp(t)) => assert_eq!(*t, TS),
        other => panic!("{:?}", other),
    }
}

#[test]
fn a_leaf_tells_of_its_spines() {
    let logs = links(vec![neighbor("leaf-1", "spine-1")]);
    assert_eq!(logs.len(), 1);
    assert_eq!(text(&logs[0], "level"), "1");
    assert_eq!(text(&logs[0], "from_device"), "leaf-1");
    assert_eq!(text(&logs[0], "from_interface"), "lp");
    assert_eq!(text(&logs[0], "from_interface_normalized"), "lp");
    assert_eq!(text(&logs[0], "to_device"), "spine-1");
    assert_eq!(text(&logs[0], "to_interface"), "rp");
    assert_eq!(text(&logs[0], "to_interface_normalized"), "rp");
    assert_eq!(text(&logs[0], "log_type"), "link");
}

#[test]
fn a_spine_does_not_tell_of_its_leaves() {
    assert_eq!(links(vec![neighbor("spine-1", "leaf-1")]).len(), 0);
}

#[test]
fn links_to_nodes_start_at_the_node() {
    let logs = links(vec![neighbor("leaf-1", "gpu-1")]);
    assert_eq!(text(&logs[0], "level"), "2");
    assert_eq!(text(&logs[0], "from_device"), "gpu-1");
    assert_eq!(text(&logs[0], "from_interface"), "rp");
    assert_eq!(text(&logs[0], "to_device"), "leaf-1");
    assert_eq!(text(&logs[0], "to_interface"), "lp");
}

#[test]
fn other_links_have_no_level() {
    let logs = links(vec![neighbor("spine-1", "spine-2")]);
    assert!(matches!(logs[0].get("level"), Some(Value::Null)));
    assert_eq!(text(&logs[0], "from_device"), "spine-1");
}

#[test]
fn some_devices_tell_no_links() {
    for name in ["O-leaf", "o-leaf", "RMSW-leaf", "rmsw-leaf"] {
        assert_eq!(links(vec![neighbor(name, "spine-1")]).len(), 0);
    }
    assert_eq!(links(vec![neighbor("RmSW-leaf", "spine-1")]).len(), 1);
}

#[test]
fn links_follow_interfaces() {
    let interfaces = vec![LocalInterface { device: "d".to_string(), port: "p".to_string() }];
    let logs = neighbors_to_logs(
        &interfaces,
        &vec![neighbor("a", "b"), neighbor("o", "b"), neighbor("c", "d")],
        "c1",
        "ip",
    );
    assert_eq!(logs.len(), 3);
    assert_eq!(text(&logs[0], "log_type"), "interface");
    assert_eq!(text(&logs[1], "from_device"), "a");
    assert_eq!(text(&logs[2], "from_device"), "c");
}

#[test]
fn results_of_targets_are_put_together() {
    let some = || links(vec![neighbor("a", "b")]);
    let two = || links(vec![neighbor("c", "d"), neighbor("e", "f")]);
    let logs = collect_cluster_logs(vec![Ok(some()), Err("down".to_string()), Ok(two())]);
    let names: Vec<String> = logs.iter().map(|l| text(l, "from_device")).collect();
    assert_eq!(names, vec!["a", "c", "e"]);
    assert_eq!(
        collect_single_target(Err("no answer".to_string()), "c", "ip").err(),
        Some("no answer".to_string())
    );
    let told = collect_single_target(Ok((vec![], vec![neighbor("a", "b")])), "c", "ip").unwrap();
    assert_eq!(told.len(), 1);
}

fn command(step: SwitchStep) -> SnmpCommand {
    match step {
        SwitchStep::Run(c) => c,
        other => panic!("{:?}", other),
    }
}

#[test]
fn a_switch_is_asked_step_by_step() {
    let mut config = cluster(SnmpVersion::V2c);
    config.community = Some("public".to_string());
    let transport = SnmpTransport::from_cluster(&config).unwrap();
    let target = Target { ip: "10.0.0.1".to_string(), vendor: Vendor::Unknown };
    let (mut scrape, step) = SwitchScrape::start(transport, target);
    let c = command(step);
    assert_eq!(c.program, "snmpget");
    assert_eq!(c.args, vec!["-v2c", "-c", "public", "10.0.0.1", "1.3.6.1.2.1.1.5.0"]);
    assert_eq!(asked_target(&c.args), "10.0.0.1");

    let c = command(scrape.step(Ok("x = STRING: \"leaf-1\"".to_string())));
    assert_eq!(c.program, "snmpwalk");
    assert_eq!(c.args[4], "1.3.6.1.2.1.2.2.1.2");
    let c = command(scrape.step(Ok("iso.3.6.1.2.1.2.2.1.2.5 = STRING: Eth5".to_string())));
    assert_eq!(c.args[4], "1.0.8802.1.1.2.1.3.7.1.3");
    let c = command(
        scrape.step(Ok("iso.0.8802.1.1.2.1.3.7.1.3.5 = STRING: \"Eth5\"".to_string())),
    );
    assert_eq!(c.args[4], "1.0.8802.1.1.2.1.4.1.1.9");
    let c = command(scrape.step(Ok("iso.0.8802.1.1.2.1.4.1.1.9.0.5.1 = STRING: \"gpu-1\"\n\
         iso.0.8802.1.1.2.1.4.1.1.9.0.6.1 = STRING: \"gpu-2\"\n\
         iso.0.8802.1.1.2.1.4.1.1.9.0.5.2 = STRING: \"gpu-3\""
        .to_string())));
    assert_eq!(c.args[4], "1.0.8802.1.1.2.1.4.1.1.7");
    let done = scrape.step(Ok("iso.0.8802.1.1.2.1.4.1.1.7.0.5.1 = STRING: \"ens1\"\n\
         iso.0.8802.1.1.2.1.4.1.1.7.0.6.1 = STRING: \"ens2\""
        .to_string()));
    match done {
        SwitchStep::Done { interfaces, neighbors } => {
            assert_eq!(interfaces.len(), 1);
            assert_eq!(interfaces[0].device, "leaf-1");
            assert_eq!(interfaces[0].port, "Eth5");
            assert_eq!(neighbors.len(), 1);
            assert_eq!(neighbors[0].local_device, "leaf-1");
            assert_eq!(neighbors[0].local_port, "Eth5");
            assert_eq!(neighbors[0].remote_device, "gpu-1");
            assert_eq!(neighbors[0].remote_port, "ens1");
        }
        other => panic!("{:?}", other),
    }
}

#[test]
fn a_switch_that_does_not_answer_ends_the_scrape() {
    let mut config = cluster(SnmpVersion::V2c);
    config.community = Some("public".to_string());
    let start = || {
        SwitchScrape::start(
            SnmpTransport::from_cluster(&config).unwrap(),
            Target { ip: "10.0.0.1".to_string(), vendor: Vendor::H3C },
        )
        .0
    };
    match start().step(Err("failed to run snmpget: gone".to_string())) {
        SwitchStep::Failed(e) => assert_eq!(e, "failed to run snmpget: gone"),
        other => panic!("{:?}", other),
    }
    match start().step(Ok("Timeout".to_string())) {
        SwitchStep::Failed(e) => assert_eq!(e, "invalid snmp output: Timeout"),
        other => panic!("{:?}", other),
    }
}

#[test]
fn what_programs_print_is_taken_even_where_they_fail() {
    let failed = ProcessOutput {
        success: false,
        stdout: vec![b'a', 0xff, b'b'],
        stderr: b" Timeout\n".to_vec(),
    };
    let args: Vec<String> =
        ["-c", "secret", "10.0.0.1", "1.3"].iter().map(|s| s.to_string()).collect();
    assert_eq!(
        run_complaint(&args, &failed),
        Some(("10.0.0.1".to_string(), "Timeout".to_string()))
    );
    assert_eq!(run_snmp("snmpget", &Ok(failed)), Ok("a\u{fffd}b".to_string()));
    let good = ProcessOutput { success: true, stdout: b"ok".to_vec(), stderr: vec![] };
    assert_eq!(run_complaint(&args, &good), None);
    assert_eq!(
        run_snmp("snmpget", &Err("not found".to_string())),
        Err("failed to run snmpget: not found".to_string())
    );
    assert_eq!(asked_target(&vec![]), "unknown");
    assert_eq!(asked_target(&vec!["x".to_string()]), "x");
}

#[test]
fn what_is_put_out() {
    let config = SnmpSwitchLldpConfig::default();
    assert!(!config.can_acknowledge());
    let outputs = config.outputs();
    assert_eq!(outputs.len(), 1);
    assert_eq!(outputs[0].data_type, DataType::Log);
    assert_eq!(outputs[0].fields.len(), 15);
    assert_eq!(outputs[0].fields[0].name, "timestamp");
    assert_eq!(outputs[0].fields[0].kind, FieldKind::Timestamp);
    assert_eq!(outputs[0].fields[6].description, "Device type (leaf/spine/node)");
    assert_eq!(outputs[0].fields[14].name, "level");
    assert_eq!(outputs[0].fields[14].kind, FieldKind::Bytes);
}

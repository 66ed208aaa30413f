use telemetry_collectors::clock::Timestamp;
use telemetry_collectors::lldp::ffi::{
    after_library, get_last_error_message, get_string_property, library_names, InterfaceAtom,
    LibraryOutcome, LibraryState, Listing, LldpError, LldpHandle, LldpInterface, LldpNeighbor,
    NeighborAtom, PortAtom,
};
use telemetry_collectors::lldp::logs::{
    host_ip, map_interfaces_to_logs, map_interfaces_to_logs_at,
    map_neighbors_to_interface_and_link_logs, map_neighbors_to_interface_and_link_logs_at, Config,
    LldpMetricsConfig,
};
use telemetry_collectors::lldp::tool::{
    extract_interface_from_lldptool_line, get_basic_interfaces, get_lldp_interfaces_via_lldptool,
    get_lldp_neighbors_for_interface, get_lldp_neighbors_via_lldptool, get_local_device_name,
    is_lldptool_available, NeighborAnswer, Run, ToolAnswers, ToolRequest, ToolStep,
};
use telemetry_collectors::log::{LogEvent, Value};
use telemetry_collectors::process::ProcessOutput;

fn ran(stdout: &str) -> Run {
    Ok(ProcessOutput { success: true, stdout: stdout.as_bytes().to_vec(), stderr: vec![] })
}

fn failed() -> Run {
    Ok(ProcessOutput { success: false, stdout: b"ignored".to_vec(), stderr: b"no".to_vec() })
}

fn garbage() -> Run {
    Ok(ProcessOutput { success: true, stdout: vec![0xff, 0xfe], stderr: vec![] })
}

fn text(log: &LogEvent, key: &str) -> String {
    match log.get(key) {
        Some(Value::Text(s)) => s.clone(),
        other => panic!("{} holds {:?}", key, other),
    }
}

fn bytes(s: &str) -> Option<Vec<u8>> {
    Some(s.as_bytes().to_vec())
}

fn sample() -> Listing {
    Listing::Listed(vec![
        None,
        Some(InterfaceAtom { name: bytes("eth0"), port: None }),
        Some(InterfaceAtom {
            name: bytes("eth1"),
            port: Some(PortAtom { chassis: None, neighbors: Some(vec![]) }),
        }),
        Some(InterfaceAtom {
            name: bytes("eth2"),
            port: Some(PortAtom { chassis: Some(bytes("node-1")), neighbors: None }),
        }),
        Some(InterfaceAtom {
            name: None,
            port: Some(PortAtom {
                chassis: Some(None),
                neighbors: Some(vec![
                    Some(NeighborAtom { chassis_name: bytes("leaf-1"), port_id: bytes("Eth1") }),
                    None,
                    Some(NeighborAtom { chassis_name: Some(vec![0xff]), port_id: None }),
                ]),
            }),
        }),
    ])
}

fn unavailable(e: LldpError) -> String {
    match e {
        LldpError::LibraryNotAvailable(m) => m,
        other => panic!("{:?}", other),
    }
}

#[test]
fn interfaces_are_read_from_the_library() {
    let handle = LldpHandle::new(LibraryState::Loaded, Ok(())).unwrap();
    let interfaces = handle.get_interfaces(&sample()).unwrap();
    let seen: Vec<(&str, &str)> =
        interfaces.iter().map(|i| (i.name.as_str(), i.device_name.as_str())).collect();
    assert_eq!(seen, vec![("eth2", "node-1"), ("", "")]);
}

#[test]
fn links_are_read_from_the_library() {
    let handle = LldpHandle::new(LibraryState::Loaded, Ok(())).unwrap();
    let neighbors = handle.get_neighbors(&sample()).unwrap();
    assert_eq!(neighbors.len(), 2);
    assert_eq!(neighbors[0].local_interface, "");
    assert_eq!(neighbors[0].remote_device, "leaf-1");
    assert_eq!(neighbors[0].remote_port, "Eth1");
    assert_eq!(neighbors[1].remote_device, "\u{fffd}");
    assert_eq!(neighbors[1].remote_port, "");
}

#[test]
fn failed_calls_are_told_apart() {
    let new = |errno| LldpHandle::new(LibraryState::Loaded, Err(errno)).unwrap_err();
    assert_eq!(
        unavailable(new(Some(2))),
        "LLDP socket unavailable: No such file or directory"
    );
    assert_eq!(unavailable(new(Some(111))), "LLDP socket unavailable: Connection refused");
    assert!(matches!(new(Some(13)), LldpError::ConnectionFailed));
    assert!(matches!(new(None), LldpError::ConnectionFailed));
    let handle = LldpHandle::new(LibraryState::Loaded, Ok(())).unwrap();
    assert_eq!(
        unavailable(handle.get_interfaces(&Listing::Failed(Some(2))).unwrap_err()),
        "LLDP socket unavailable when fetching interfaces: No such file or directory"
    );
    assert_eq!(
        unavailable(handle.get_neighbors(&Listing::Failed(Some(111))).unwrap_err()),
        "LLDP socket unavailable when fetching neighbors: Connection refused"
    );
    assert!(matches!(
        handle.get_interfaces(&Listing::Failed(Some(13))).unwrap_err(),
        LldpError::InterfaceFetchFailed
    ));
    assert!(matches!(
        handle.get_neighbors(&Listing::Failed(None)).unwrap_err(),
        LldpError::InterfaceFetchFailed
    ));
    assert_eq!(
        unavailable(LldpHandle::new(LibraryState::NotFound, Ok(())).unwrap_err()),
        "liblldpctl library not found"
    );
    assert_eq!(
        unavailable(LldpHandle::new(LibraryState::NoFunctions, Ok(())).unwrap_err()),
        "LLDP functions not loaded"
    );
}

#[test]
fn the_library_is_looked_for_in_five_places() {
    assert_eq!(library_names()[0], "liblldpctl.so.4");
    assert_eq!(library_names()[4], "/lib/liblldpctl.so.4");
    assert_eq!(library_names().len(), 5);
}

#[test]
fn error_numbers_have_messages() {
    assert_eq!(get_last_error_message(Some(2)), "No such file or directory");
    assert_eq!(get_last_error_message(Some(13)), "Permission denied");
    assert_eq!(get_last_error_message(Some(111)), "Connection refused");
    assert_eq!(get_last_error_message(Some(-5)), "System error: -5");
    assert_eq!(get_last_error_message(None), "Unknown connection error");
}

#[test]
fn errors_have_messages() {
    assert_eq!(LldpError::ConnectionFailed.message(), "LLDP connection failed");
    assert_eq!(LldpError::InterfaceFetchFailed.message(), "Failed to fetch network interfaces");
    assert_eq!(LldpError::NullPointer("here").message(), "Null pointer encountered in: here");
    assert_eq!(LldpError::ThreadJoinFailed.message(), "Blocking thread error");
    let lasting = LldpError::LibraryNotAvailable("gone".to_string());
    assert_eq!(lasting.message(), "LLDP library not available: gone");
    assert!(lasting.is_lasting());
    assert!(!LldpError::ConnectionFailed.is_lasting());
}

#[test]
fn texts_of_the_library() {
    let read = |l, v: Option<Vec<u8>>| get_string_property(l, &v);
    assert_eq!(read(LibraryState::Loaded, bytes("x")).unwrap(), "x");
    assert!(matches!(
        read(LibraryState::Loaded, None).unwrap_err(),
        LldpError::NullPointer("get_string_property")
    ));
    assert_eq!(
        unavailable(read(LibraryState::NotFound, bytes("x")).unwrap_err()),
        "LLDP library not available"
    );
    assert_eq!(
        unavailable(read(LibraryState::NoFunctions, bytes("x")).unwrap_err()),
        "LLDP functions not loaded"
    );
}

#[test]
fn the_tool_is_asked_where_the_library_is_of_no_use() {
    let lasting = LldpError::LibraryNotAvailable("gone".to_string());
    assert!(matches!(after_library::<u8>(Ok(Err(lasting))), LibraryOutcome::AskTool));
    assert!(matches!(
        after_library::<u8>(Ok(Err(LldpError::ConnectionFailed))),
        LibraryOutcome::Failed(LldpError::ConnectionFailed)
    ));
    assert!(matches!(
        after_library::<u8>(Err(())),
        LibraryOutcome::Failed(LldpError::ThreadJoinFailed)
    ));
    match after_library(Ok(Ok(vec![1u8, 2]))) {
        LibraryOutcome::Told(v) => assert_eq!(v, vec![1, 2]),
        other => panic!("{:?}", other),
    }
}

#[test]
fn this_machine_has_a_name() {
    assert_eq!(get_local_device_name(&ran(" node-7\n")).unwrap(), "node-7");
    assert_eq!(get_local_device_name(&failed()).unwrap(), "unknown");
    assert_eq!(
        unavailable(get_local_device_name(&garbage()).unwrap_err()),
        "Invalid UTF-8 in hostname output"
    );
    assert_eq!(
        unavailable(get_local_device_name(&Err("no such file".to_string())).unwrap_err()),
        "Failed to execute hostname: no such file"
    );
    assert!(is_lldptool_available(&ran("")));
    assert!(!is_lldptool_available(&failed()));
    assert!(!is_lldptool_available(&Err("x".to_string())));
}

#[test]
fn virtual_interfaces_are_left_out() {
    let name = |s: &str| extract_interface_from_lldptool_line(s);
    assert_eq!(name("  eth0 "), Some("eth0".to_string()));
    assert_eq!(name("lo1"), Some("lo1".to_string()));
    for s in ["", "   ", "lo", " lo ", "docker0", "veth12", "br-1"] {
        assert_eq!(name(s), None, "{}", s);
    }
}

#[test]
fn common_interfaces_stand_in_for_the_tool() {
    let names = |d: Option<&str>| -> Vec<String> {
        get_basic_interfaces("n", &d.map(|s| s.to_string()))
            .into_iter()
            .map(|i| i.name)
            .collect()
    };
    assert_eq!(names(Some("wlan0: 1\n eth0: 2")), vec!["eth0", "wlan0"]);
    assert_eq!(names(Some("ens5")), vec!["unknown"]);
    assert_eq!(names(None), vec!["unknown"]);
}

fn asked<T: std::fmt::Debug>(step: ToolStep<T>) -> ToolRequest {
    match step {
        ToolStep::Ask(r) => r,
        other => panic!("{:?}", other),
    }
}

fn done<T: std::fmt::Debug>(step: ToolStep<T>) -> Result<Vec<T>, LldpError> {
    match step {
        ToolStep::Done(r) => r,
        other => panic!("{:?}", other),
    }
}

#[test]
fn interfaces_without_the_tool() {
    let mut a = ToolAnswers::new();
    assert!(matches!(asked(get_lldp_interfaces_via_lldptool(&a)), ToolRequest::FindTool));
    a.available = Some(false);
    assert!(matches!(asked(get_lldp_interfaces_via_lldptool(&a)), ToolRequest::HostName));
    a.hostname = Some(ran("n1"));
    assert!(matches!(asked(get_lldp_interfaces_via_lldptool(&a)), ToolRequest::ReadDevices));
    a.devices = Some(Some("ens33".to_string()));
    let found = done(get_lldp_interfaces_via_lldptool(&a)).unwrap();
    assert_eq!(found.len(), 1);
    assert_eq!(found[0].name, "ens33");
    assert_eq!(found[0].device_name, "n1");
}

#[test]
fn interfaces_that_the_tool_lists() {
    let mut a = ToolAnswers::new();
    a.available = Some(true);
    a.hostname = Some(Err("none".to_string()));
    assert!(matches!(asked(get_lldp_interfaces_via_lldptool(&a)), ToolRequest::ListInterfaces));
    a.listing = Some(ran("Interface list\n\n eth7 \nlo\nveth3\nens1\n"));
    let found = done(get_lldp_interfaces_via_lldptool(&a)).unwrap();
    let names: Vec<&str> = found.iter().map(|i| i.name.as_str()).collect();
    assert_eq!(names, vec!["eth7", "ens1"]);
    assert_eq!(found[0].device_name, "");
    a.listing = Some(garbage());
    assert_eq!(
        unavailable(done(get_lldp_interfaces_via_lldptool(&a)).unwrap_err()),
        "Invalid UTF-8 in lldptool output"
    );
}

#[test]
fn interfaces_that_the_tool_knows() {
    for listing in [failed(), Err("x".to_string()), ran("lo\n")] {
        let mut a = ToolAnswers::new();
        a.available = Some(true);
        a.hostname = Some(ran("n1"));
        a.listing = Some(listing);
        for (i, name) in
            ["eth0", "eth1", "enp0s3", "enp0s8", "ens33", "wlan0"].iter().enumerate()
        {
            match asked(get_lldp_interfaces_via_lldptool(&a)) {
                ToolRequest::CheckInterface(n) => assert_eq!(&n, name),
                other => panic!("{:?}", other),
            }
            a.checks.push(if i == 1 || i == 4 { ran("") } else { failed() });
        }
        let found = done(get_lldp_interfaces_via_lldptool(&a)).unwrap();
        let names: Vec<&str> = found.iter().map(|i| i.name.as_str()).collect();
        assert_eq!(names, vec!["eth1", "ens33"]);
        a.checks = (0..6).map(|_| Err("gone".to_string())).collect();
        let found = done(get_lldp_interfaces_via_lldptool(&a)).unwrap();
        assert_eq!(found.len(), 1);
        assert_eq!(found[0].name, "unknown");
        assert_eq!(found[0].device_name, "n1");
    }
}

fn links(stdout: &str) -> Vec<(String, String)> {
    let answer = NeighborAnswer::Ran { run: ran(stdout), hostname: ran("n1") };
    get_lldp_neighbors_for_interface("eth0", &answer)
        .unwrap()
        .into_iter()
        .map(|n| {
            assert_eq!(n.local_interface, "eth0");
            assert_eq!(n.local_device, "n1");
            (n.remote_device, n.remote_port)
        })
        .collect()
}

fn pair(a: &str, b: &str) -> (String, String) {
    (a.to_string(), b.to_string())
}

#[test]
fn links_are_read_from_what_the_tool_prints() {
    assert_eq!(
        links("  Chassis ID TLV: leaf-1 \n\tPort ID TLV: Eth1:2\nTTL: 120\n"),
        vec![pair("leaf-1", "Eth1:2")]
    );
    assert_eq!(links("Port ID: p\nChassis ID: c\n"), vec![pair("c", "p")]);
    assert_eq!(
        links("Chassis ID: a\nChassis ID: b\nPort ID: p"),
        vec![pair("b", ""), pair("b", "p")]
    );
    assert_eq!(links("Chassis ID: a\nPort ID\n"), vec![]);
    assert_eq!(links("Port ID: p"), vec![]);
    assert_eq!(links(""), vec![]);
    assert_eq!(
        links("Port ID: p\nPort ID: q\n"),
        vec![pair("", "q")]
    );
}

#[test]
fn links_of_a_tool_that_fails() {
    let ask = |a: NeighborAnswer| get_lldp_neighbors_for_interface("eth0", &a);
    let host = || ran("n1");
    assert_eq!(ask(NeighborAnswer::NoTool).unwrap().len(), 0);
    assert_eq!(
        ask(NeighborAnswer::Ran { run: failed(), hostname: host() }).unwrap().len(),
        0
    );
    assert_eq!(
        unavailable(
            ask(NeighborAnswer::Ran { run: garbage(), hostname: host() }).unwrap_err()
        ),
        "Invalid UTF-8 in lldptool output"
    );
    assert_eq!(
        unavailable(
            ask(NeighborAnswer::Ran { run: Err("e".to_string()), hostname: host() }).unwrap_err()
        ),
        "Failed to execute lldptool: e"
    );
}

#[test]
fn links_are_asked_for_interface_by_interface() {
    let mut a = ToolAnswers::new();
    assert!(matches!(asked(get_lldp_neighbors_via_lldptool(&a)), ToolRequest::FindTool));
    a.available = Some(false);
    assert_eq!(done(get_lldp_neighbors_via_lldptool(&a)).unwrap().len(), 0);
    a.available = Some(true);
    assert!(matches!(asked(get_lldp_neighbors_via_lldptool(&a)), ToolRequest::HostName));
    a.hostname = Some(ran("n1"));
    for i in 0..6 {
        assert!(matches!(
            asked(get_lldp_neighbors_via_lldptool(&a)),
            ToolRequest::CheckInterface(_)
        ));
        a.checks.push(if i < 2 { ran("") } else { failed() });
    }
    match asked(get_lldp_neighbors_via_lldptool(&a)) {
        ToolRequest::ListNeighbors(n) => assert_eq!(n, "eth0"),
        other => panic!("{:?}", other),
    }
    a.neighbors.push(NeighborAnswer::Ran {
        run: ran("Chassis ID: c\nPort ID: p"),
        hostname: ran("n1"),
    });
    match asked(get_lldp_neighbors_via_lldptool(&a)) {
        ToolRequest::ListNeighbors(n) => assert_eq!(n, "eth1"),
        other => panic!("{:?}", other),
    }
    a.neighbors.push(NeighborAnswer::NoTool);
    let found = done(get_lldp_neighbors_via_lldptool(&a)).unwrap();
    assert_eq!(found.len(), 1);
    assert_eq!(found[0].local_interface, "eth0");
    a.neighbors[0] = NeighborAnswer::Ran { run: garbage(), hostname: ran("n1") };
    assert!(done(get_lldp_neighbors_via_lldptool(&a)).is_err());
}

fn interface() -> LldpInterface {
    LldpInterface { name: "eth0".to_string(), device_name: "n1".to_string() }
}

fn link() -> LldpNeighbor {
    LldpNeighbor {
        local_interface: "eth0".to_string(),
        local_device: "n1".to_string(),
        remote_device: "leaf-1".to_string(),
        remote_port: "Eth1".to_string(),
    }
}

#[test]
fn events_tell_of_interfaces() {
    let config = Config::from_environment(None, Some("c1".to_string()));
    assert_eq!(config.node_name, "unknown-node");
    let ts = Timestamp { secs: 3, nanos: 4 };
    let logs = map_interfaces_to_logs_at(ts, &vec![interface()], &config, "10.0.0.1");
    assert_eq!(logs.len(), 1);
    assert_eq!(text(&logs[0], "cluster"), "c1");
    assert_eq!(text(&logs[0], "device"), "n1");
    assert_eq!(text(&logs[0], "interface"), "eth0");
    assert_eq!(text(&logs[0], "interface_normalized"), "eth0");
    assert_eq!(text(&logs[0], "out_band_ip"), "10.0.0.1");
    assert_eq!(text(&logs[0], "log_type"), "interface");
    assert!(matches!(logs[0].get("type"), Some(Value::Integer(0))));
    assert!(matches!(logs[0].get("timestamp"), Some(Value::Timestamp(t)) if *t == ts));
    assert_eq!(map_interfaces_to_logs(&vec![interface(), interface()], &config, "x").len(), 2);
}

#[test]
fn events_tell_of_links_and_of_their_other_ends() {
    let config = Config::from_environment(Some("n1".to_string()), None);
    assert_eq!(config.cluster, "unknown-cluster");
    let ts = vec![Timestamp { secs: 1, nanos: 0 }, Timestamp { secs: 2, nanos: 0 }];
    let (ends, links) = map_neighbors_to_interface_and_link_logs_at(
        &ts,
        &vec![link(), link()],
        &config,
        &host_ip(None),
    );
    assert_eq!(ends.len(), 2);
    assert_eq!(links.len(), 2);
    assert_eq!(text(&ends[1], "device"), "leaf-1");
    assert_eq!(text(&ends[1], "interface"), "Eth1");
    assert_eq!(text(&ends[1], "out_band_ip"), "unknown");
    assert!(matches!(ends[1].get("type"), Some(Value::Integer(0))));
    assert!(matches!(ends[1].get("timestamp"), Some(Value::Timestamp(t)) if t.secs == 2));
    assert!(matches!(links[1].get("timestamp"), Some(Value::Timestamp(t)) if t.secs == 2));
    assert_eq!(text(&links[0], "from_device"), "n1");
    assert_eq!(text(&links[0], "from_interface"), "eth0");
    assert_eq!(text(&links[0], "from_interface_normalized"), "eth0");
    assert_eq!(text(&links[0], "to_device"), "leaf-1");
    assert_eq!(text(&links[0], "to_interface"), "Eth1");
    assert_eq!(text(&links[0], "to_interface_normalized"), "Eth1");
    assert_eq!(text(&links[0], "log_type"), "link");
    assert!(matches!(links[0].get("level"), Some(Value::Integer(0))));
    let (a, b) = map_neighbors_to_interface_and_link_logs(&vec![link()], &config, "x");
    assert_eq!((a.len(), b.len()), (1, 1));
}

#[test]
fn intervals_that_are_left_out() {
    let c = LldpMetricsConfig::from_settings(None, None);
    assert_eq!((c.interface_scrape_secs, c.link_scrape_secs), (30, 60));
    let c = LldpMetricsConfig::from_settings(Some(5), Some(6));
    assert_eq!((c.interface_scrape_secs, c.link_scrape_secs), (5, 6));
    let c = LldpMetricsConfig::default();
    assert_eq!((c.interface_scrape_secs, c.link_scrape_secs), (0, 0));
    assert!(!c.can_acknowledge());
    assert_eq!(c.outputs()[0].fields.len(), 15);
    assert_eq!(host_ip(Some("1.2.3.4".to_string())), "1.2.3.4");
}

use telemetry_collectors::clock::Timestamp;
use telemetry_collectors::log::{LogEvent, Value};
use telemetry_collectors::number::IntError;
use telemetry_collectors::pci::config::{Config, DeviceFiles, EntryKind, SysEntry};
use telemetry_collectors::pci::errors::PciError;
use telemetry_collectors::pci::pci::{PciAddress, PciDevice};
use telemetry_collectors::schema::FieldKind;

fn text(log: &LogEvent, key: &str) -> String {
    match log.get(key) {
        Some(Value::Text(s)) => s.clone(),
        other => panic!("{} holds {:?}", key, other),
    }
}

fn ok(s: &str) -> Result<String, String> {
    Ok(s.to_string())
}

fn files(class: &str, device: &str, vendor: &str) -> DeviceFiles {
    DeviceFiles {
        class: ok(class),
        device: ok(device),
        vendor: ok(vendor),
        current_link_speed: ok("8.0 GT/s PCIe\n"),
        current_link_width: ok("16\n"),
        max_link_speed: Err("No such file".to_string()),
        max_link_width: ok(" 16 "),
    }
}

fn entry(is_dir: bool, name: &str, files: DeviceFiles) -> Result<SysEntry, String> {
    Ok(SysEntry { is_dir, name: Some(name.to_string()), files })
}

#[test]
fn test_parse_full_format() {
    let id_raw = "0000:5d:0e.0";
    let pci = PciAddress::from_str(id_raw).unwrap();
    assert_eq!(pci.domain, 0x0000);
    assert_eq!(pci.bus, 0x5d);
    assert_eq!(pci.device, 0x0e);
    assert_eq!(pci.function, 0x0);
    assert_eq!(pci.to_string(), id_raw);
}

#[test]
fn test_parse_short_format() {
    let pci = PciAddress::from_str("5d:0e.0").unwrap();
    assert_eq!(pci.domain, 0x0000);
    assert_eq!(pci.bus, 0x5d);
    assert_eq!(pci.device, 0x0e);
    assert_eq!(pci.function, 0x0);
}

#[test]
fn test_format_output() {
    let pci = PciAddress { domain: 0x0000, bus: 0x5d, device: 0x0e, function: 0x0 };
    assert_eq!(pci.to_string(), "0000:5d:0e.0");
}

#[test]
fn test_invalid_input() {
    assert!(PciAddress::from_str("invalid").is_err());
    assert!(PciAddress::from_str("00:00:14").is_err());
}

#[test]
fn every_address_is_read_back() {
    for domain in [0u16, 1, 0x0f, 0x10, 0xabc, 0xffff] {
        for byte in [0u8, 7, 0x0a, 0x10, 0xff] {
            let a = PciAddress { domain, bus: byte, device: byte, function: byte };
            assert_eq!(PciAddress::from_str(&a.to_string()).unwrap(), a);
        }
    }
}

#[test]
fn addresses_that_are_none_are_told_apart() {
    match PciAddress::from_str("1:2:3:4.5") {
        Err(PciError::IllegalPciAddress(s)) => assert_eq!(s, "1:2:3:4.5"),
        other => panic!("{:?}", other),
    }
    match PciAddress::from_str("0000:5g:0e.0") {
        Err(PciError::ParseIntError { field, source }) => {
            assert_eq!(field, "5g");
            assert_eq!(source, IntError::InvalidDigit);
        }
        other => panic!("{:?}", other),
    }
    match PciAddress::from_str("0000:100:0e.0") {
        Err(PciError::ParseIntError { field, source }) => {
            assert_eq!(field, "100");
            assert_eq!(source, IntError::PosOverflow);
        }
        other => panic!("{:?}", other),
    }
    match PciAddress::from_str("5d:.0") {
        Err(PciError::ParseIntError { field, source }) => {
            assert_eq!(field, "");
            assert_eq!(source, IntError::Empty);
        }
        other => panic!("{:?}", other),
    }
    assert_eq!(PciAddress::from_str("+5:1.+7").unwrap().function, 7);
}

#[test]
fn error_messages() {
    assert_eq!(
        PciAddress::from_str("invalid").unwrap_err().message(),
        "illegal pci address invalid"
    );
    assert_eq!(
        PciAddress::from_str("0000:\"g:0e.0").unwrap_err().message(),
        "parse int error \"\\\"g\" ParseIntError { kind: InvalidDigit }"
    );
    assert_eq!(PciError::IoError("gone".to_string()).message(), "io error");
    assert_eq!(PciError::FileError("gone".to_string()).message(), "gone");
    for text in ["", "xyz", "100000000"] {
        let want = u32::from_str_radix(text, 16).unwrap_err();
        let config = Config::default();
        let got = config
            .read_device(PciAddress::from_str("0:0.0").unwrap(), &files(text, "1", "1"))
            .unwrap_err();
        assert_eq!(got.message(), want.to_string());
    }
}

#[test]
fn devices_are_read_from_their_entries() {
    let config = Config::default();
    let entries = vec![
        entry(true, "0000:5d:0e.0", files("0x020000\n", "0x1017", " 0x15b3 ")),
        entry(false, "0000:5d:0e.1", files("", "", "")),
        entry(true, "power", files("", "", "")),
        Ok(SysEntry { is_dir: true, name: None, files: files("", "", "") }),
        entry(true, "01:00.7", files("030200", "0x0x20B0", "10de")),
    ];
    let devices = config.walk_pcie_addrs(&entries).unwrap();
    assert_eq!(devices.len(), 2);
    assert_eq!(devices[0].address.to_string(), "0000:5d:0e.0");
    assert_eq!(devices[0].class, 0x20000);
    assert_eq!(devices[0].device, 0x1017);
    assert_eq!(devices[0].vendor, 0x15b3);
    assert_eq!(devices[0].current_link_speed.as_deref(), Some("8.0 GT/s PCIe"));
    assert_eq!(devices[0].current_link_width.as_deref(), Some("16"));
    assert_eq!(devices[0].max_link_speed, None);
    assert_eq!(devices[0].max_link_width.as_deref(), Some("16"));
    assert_eq!(devices[1].address.to_string(), "0000:01:00.7");
    assert_eq!(devices[1].device, 0x20b0);
}

#[test]
fn the_first_bad_entry_ends_the_walk() {
    let config = Config::default();
    let good = || entry(true, "01:00.0", files("1", "2", "3"));
    match config.walk_pcie_addrs(&vec![good(), Err("permission denied".to_string())]) {
        Err(PciError::FileError(m)) => assert_eq!(m, "permission denied"),
        other => panic!("{:?}", other),
    }
    match config.walk_pcie_addrs(&vec![good(), entry(true, "a:b", files("1", "2", "3"))]) {
        Err(PciError::IllegalPciAddress(m)) => assert_eq!(m, "a:b"),
        other => panic!("{:?}", other),
    }
    match config.walk_pcie_addrs(&vec![entry(true, "01:00.0", files("zz", "2", "3")), good()]) {
        Err(PciError::FileNumber(e)) => assert_eq!(e, IntError::InvalidDigit),
        other => panic!("{:?}", other),
    }
    let mut unread = files("1", "2", "3");
    unread.vendor = Err("no vendor".to_string());
    match config.walk_pcie_addrs(&vec![entry(true, "01:00.0", unread)]) {
        Err(PciError::FileError(m)) => assert_eq!(m, "no vendor"),
        other => panic!("{:?}", other),
    }
    assert!(matches!(config.classify_entry(true, &Some("x".to_string())), EntryKind::Other));
}

#[test]
fn events_tell_of_devices() {
    let ts = Timestamp { secs: 1_700_000_000, nanos: 5 };
    let device = PciDevice::new(PciAddress::from_str("5d:0e.0").unwrap(), 0x15b3, 0x1017, 0x20000)
        .set_max_link_speed(Some("16.0 GT/s PCIe".to_string()));
    let log = device.into_log_at(ts);
    assert_eq!(text(&log, "source_type"), "pci");
    match log.get("timestamp") {
        Some(Value::Timestamp(t)) => assert_eq!(*t, ts),
        other => panic!("{:?}", other),
    }
    assert_eq!(text(&log, "address"), "0000:5d:0e.0");
    assert_eq!(text(&log, "class"), format!("{:#x}", 0x20000));
    assert_eq!(text(&log, "device"), "0x1017");
    assert_eq!(text(&log, "vendor"), "0x15b3");
    assert_eq!(text(&log, "max_link_speed"), "16.0 GT/s PCIe");
    assert_eq!(text(&log, "max_link_width"), "");
    assert_eq!(text(&log, "current_link_speed"), "");
    assert_eq!(text(&log, "current_link_width"), "");
}

#[test]
fn fields_that_are_there_stay() {
    let mut base = LogEvent::new();
    base.insert_text("class", "mine");
    let device = PciDevice::new(PciAddress::from_str("5d:0e.0").unwrap(), 1, 2, 3);
    let log = device.into_log_from(base);
    assert_eq!(text(&log, "class"), "mine");
    assert_eq!(text(&log, "device"), "0x2");
}

#[test]
fn events_are_observed_now() {
    let before = std::time::SystemTime::now();
    let log = PciDevice::new(PciAddress::from_str("5d:0e.0").unwrap(), 1, 2, 3).into_log();
    let secs = before.duration_since(std::time::UNIX_EPOCH).unwrap().as_secs() as i64;
    match log.get("timestamp") {
        Some(Value::Timestamp(t)) => assert!(t.secs >= secs && t.secs <= secs + 60),
        other => panic!("{:?}", other),
    }
}

#[test]
fn devices_are_looked_at_every_quarter_of_an_hour() {
    let config = Config::default();
    assert_eq!(config.interval.secs, 60 * 15);
    assert_eq!(config.interval.nanos, 0);
    assert!(!config.can_acknowledge());
    let outputs = config.outputs();
    assert_eq!(outputs.len(), 1);
    let names: Vec<&str> = outputs[0].fields.iter().map(|f| f.name.as_str()).collect();
    assert_eq!(
        names,
        vec![
            "address",
            "class",
            "device",
            "vendor",
            "max_link_speed",
            "max_link_width",
            "current_link_speed",
            "current_link_width"
        ]
    );
    assert!(outputs[0].fields.iter().all(|f| f.kind == FieldKind::Bytes));
}

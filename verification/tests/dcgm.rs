use telemetry_collectors::clock::Timestamp;
use telemetry_collectors::dcgm::collector::{
    collect_metrics_by_fields, collect_step, init_dcgm, library_names, list_all_gpus, read_report,
    refusal, register_fields, CollectStep, FieldRead, FieldValue, InitStep, LibraryState,
    ReadReport, RegisterStep, DCGM_ST_BADPARAM, DCGM_ST_LIBRARY_NOT_FOUND, DCGM_ST_NO_DATA,
};
use telemetry_collectors::dcgm::fields::{
    add_identity_fields, field_group_name, resolve_all_fields, resolve_field_id_to_name,
    resolve_field_name, DcgmMetricGroup, DcgmMetricsConfig, FieldTable, FieldType,
};
use telemetry_collectors::dcgm::metrics::{map_metrics, map_metrics_at};
use telemetry_collectors::dcgm::pod_resource_mapper::{
    gpu_owners, ContainerDevices, ContainerResources, PodInfo, PodResources, PodResourcesMapper,
    PodResourcesRefresher, RefreshAction, RefreshEvent,
};
use telemetry_collectors::metric::{Metric, MetricKind, MetricValue};
use telemetry_collectors::schema::DataType;
use telemetry_collectors::table::TextMap;

fn table() -> FieldTable {
    let mut name_to_id = TextMap::new();
    let mut id_to_name = Vec::new();
    for (name, id) in [
        ("DCGM_FI_DEV_POWER_USAGE", 155u16),
        ("DCGM_FI_DEV_XID_ERRORS", 230),
        ("DCGM_FI_DEV_SERIAL", 53),
    ] {
        name_to_id.insert(name.to_string(), id);
        id_to_name.push((id, name.to_string()));
    }
    FieldTable { name_to_id, id_to_name }
}

fn group(fields: &[&str]) -> DcgmMetricGroup {
    DcgmMetricGroup {
        scrape_interval_secs: 10,
        fields: fields.iter().map(|s| s.to_string()).collect(),
    }
}

fn value(field_id: u16, field_type: char, dbl: f64, int: i64, text: &[u8]) -> FieldValue<f64> {
    FieldValue { field_id, field_type: field_type as u16, status: 0, dbl, int, text: text.to_vec() }
}

#[test]
fn fields_have_names() {
    let t = table();
    assert_eq!(resolve_field_name(&t, "DCGM_FI_DEV_POWER_USAGE"), Some(155));
    assert_eq!(resolve_field_name(&t, "nothing"), None);
    assert_eq!(resolve_field_id_to_name(&t, 230), Some("DCGM_FI_DEV_XID_ERRORS"));
    assert_eq!(resolve_field_id_to_name(&t, 1), None);
}

#[test]
fn types_of_fields() {
    assert_eq!(FieldType::from('s' as u16), FieldType::Text);
    assert_eq!(FieldType::from('d' as u16), FieldType::Double);
    assert_eq!(FieldType::from('i' as u16), FieldType::Int64);
    assert_eq!(FieldType::from('t' as u16), FieldType::Timestamp);
    assert_eq!(FieldType::from('b' as u16), FieldType::Binary);
    assert_eq!(FieldType::from(7), FieldType::Unknown(7));
}

#[test]
fn groups_are_resolved() {
    let mut config = DcgmMetricsConfig::default();
    assert_eq!(config.groups.len(), 0);
    config.groups.insert(
        "slow".to_string(),
        group(&["DCGM_FI_DEV_XID_ERRORS", "DCGM_FI_DEV_POWER_USAGE"]),
    );
    config.groups.insert("none".to_string(), group(&[]));
    let resolved = resolve_all_fields(&table(), &config.groups).unwrap();
    assert_eq!(resolved.get("slow"), Some(&vec![230, 155]));
    let read = config.field_groups(&table()).unwrap();
    assert_eq!(read.get("slow"), Some(&vec![230, 155, 54, 50]));
    assert_eq!(read.get("none"), Some(&vec![54, 50]));
    config.groups.insert("bad".to_string(), group(&["DCGM_FI_DEV_SERIAL", "what"]));
    assert_eq!(
        config.field_groups(&table()).err(),
        Some("Unknown DCGM field name: what".to_string())
    );
    assert!(!config.can_acknowledge());
    assert_eq!(config.outputs()[0].data_type, DataType::Metric);
    let empty = DcgmMetricGroup::default();
    assert_eq!((empty.scrape_interval_secs, empty.fields.len()), (0, 0));
    assert_eq!(field_group_name("slow"), "slow_field_group");
}

#[test]
fn identity_is_added_once() {
    assert_eq!(add_identity_fields(&vec![]), vec![54, 50]);
    assert_eq!(add_identity_fields(&vec![50, 1]), vec![50, 1, 54]);
    assert_eq!(add_identity_fields(&vec![54, 50]), vec![54, 50]);
}

#[test]
fn the_library_is_started_in_two_calls() {
    let loaded = LibraryState::Loaded;
    for missing in [LibraryState::NotFound, LibraryState::NoFunctions] {
        assert_eq!(
            init_dcgm(missing, None, None),
            InitStep::Failed(DCGM_ST_LIBRARY_NOT_FOUND)
        );
    }
    assert_eq!(init_dcgm(loaded, None, None), InitStep::Init);
    assert_eq!(init_dcgm(loaded, Some(-7), None), InitStep::Failed(-7));
    assert_eq!(init_dcgm(loaded, Some(0), None), InitStep::StartEmbedded { mode: 2 });
    assert_eq!(init_dcgm(loaded, Some(0), Some((-3, 9))), InitStep::Failed(-3));
    assert_eq!(init_dcgm(loaded, Some(0), Some((0, 9))), InitStep::Ready(9));
    assert_eq!(library_names()[0], "libdcgm.so.2");
    assert_eq!(library_names().len(), 5);
}

#[test]
fn fields_are_registered_in_three_calls() {
    let (mut reg, step) =
        register_fields(LibraryState::Loaded, &vec![155, 54], "g", "g_field_group", 10).unwrap();
    match step {
        RegisterStep::CreateGroup { group_type, name } => {
            assert_eq!((group_type, name.as_str()), (0, "g"));
        }
        other => panic!("{:?}", other),
    }
    match reg.step(0, 11) {
        RegisterStep::CreateFieldGroup { count, field_ids, name } => {
            assert_eq!(count, 2);
            assert_eq!(field_ids, vec![155, 54]);
            assert_eq!(name, "g_field_group");
        }
        other => panic!("{:?}", other),
    }
    match reg.step(0, 22) {
        RegisterStep::WatchFields {
            group,
            field_group,
            update_freq_usec,
            max_keep_age_secs,
            max_keep_samples,
        } => {
            assert_eq!((group, field_group), (11, 22));
            assert_eq!(update_freq_usec, 10_000_000);
            assert_eq!((max_keep_age_secs, max_keep_samples), (600, 1));
        }
        other => panic!("{:?}", other),
    }
    assert!(matches!(reg.step(0, 0), RegisterStep::Registered(11, 22)));
}

#[test]
fn what_cannot_be_registered_is_refused() {
    let refused = |library, ids: Vec<u16>, a: &str, b: &str| {
        register_fields(library, &ids, a, b, 1).err()
    };
    let ok = LibraryState::Loaded;
    let gone = LibraryState::NoFunctions;
    assert_eq!(refused(ok, vec![1], "", "b"), Some(DCGM_ST_BADPARAM));
    assert_eq!(refused(ok, vec![1], "a", ""), Some(DCGM_ST_BADPARAM));
    assert_eq!(refused(ok, vec![1], "a\0", "b"), Some(DCGM_ST_BADPARAM));
    assert_eq!(refused(ok, vec![1], "a", "b\0c"), Some(DCGM_ST_BADPARAM));
    assert_eq!(refused(ok, vec![], "a", "b"), Some(DCGM_ST_BADPARAM));
    assert_eq!(
        refused(LibraryState::NotFound, vec![], "", ""),
        Some(DCGM_ST_LIBRARY_NOT_FOUND)
    );
    assert_eq!(refused(gone, vec![], "a", "b"), Some(DCGM_ST_BADPARAM));
    assert_eq!(refused(gone, vec![1], "a", "b"), Some(DCGM_ST_LIBRARY_NOT_FOUND));
}

#[test]
fn refusals_come_before_the_interval_is_looked_at() {
    let ok = LibraryState::Loaded;
    assert_eq!(refusal(ok, &vec![1], "", "b"), Some(DCGM_ST_BADPARAM));
    assert_eq!(refusal(ok, &vec![1], "a", "b"), None);
    assert_eq!(
        register_fields(ok, &vec![1], "", "b", u64::MAX).err(),
        Some(DCGM_ST_BADPARAM)
    );
}

#[test]
fn owners_are_replaced_and_not_merged() {
    let mut mapper = owners();
    let mut data = TextMap::new();
    let other = PodInfo { pod: "p".to_string(), ..PodInfo::default() };
    data.insert("GPU-9".to_string(), other);
    mapper.update(&data);
    assert!(mapper.get("GPU-1").is_none());
    assert_eq!(mapper.get("GPU-9").unwrap().pod, "p");
    assert_eq!(data.len(), 1);
}

#[test]
fn registering_ends_at_the_first_failed_call() {
    let start = || register_fields(LibraryState::Loaded, &vec![1], "a", "b", 1).unwrap().0;
    let mut reg = start();
    assert!(matches!(reg.step(-6, 1), RegisterStep::Failed(-6)));
    assert!(matches!(reg.step(0, 1), RegisterStep::Failed(DCGM_ST_BADPARAM)));
    let mut reg = start();
    reg.step(0, 1);
    assert!(matches!(reg.step(-13, 1), RegisterStep::Failed(-13)));
    let mut reg = start();
    reg.step(0, 1);
    reg.step(0, 2);
    assert!(matches!(reg.step(-1, 0), RegisterStep::Failed(-1)));
}

#[test]
fn gpus_are_listed() {
    let ids = vec![4u32, 5, 6, 7];
    assert_eq!(list_all_gpus(LibraryState::Loaded, 0, &ids, 2), Ok(vec![4, 5]));
    assert_eq!(list_all_gpus(LibraryState::Loaded, -3, &ids, 99), Err(-3));
    assert_eq!(
        list_all_gpus(LibraryState::NotFound, 0, &ids, 2),
        Err(DCGM_ST_LIBRARY_NOT_FOUND)
    );
}

#[test]
fn readings_are_collected_step_by_step() {
    let ok = LibraryState::Loaded;
    assert_eq!(
        collect_step(LibraryState::NotFound, None, &None, 0),
        CollectStep::Failed(DCGM_ST_LIBRARY_NOT_FOUND)
    );
    assert_eq!(collect_step(ok, None, &None, 0), CollectStep::Update);
    assert_eq!(collect_step(ok, Some(-1), &None, 0), CollectStep::Failed(-1));
    assert_eq!(collect_step(ok, Some(0), &None, 0), CollectStep::ListGpus);
    assert_eq!(collect_step(ok, Some(0), &Some(Err(-5)), 0), CollectStep::Failed(-5));
    let gpus = Some(Ok(vec![3, 8]));
    assert_eq!(collect_step(ok, Some(0), &gpus, 0), CollectStep::ReadFields(3));
    assert_eq!(collect_step(ok, Some(0), &gpus, 1), CollectStep::ReadFields(8));
    assert_eq!(collect_step(ok, Some(0), &gpus, 2), CollectStep::Finish);
}

#[test]
fn only_readings_are_kept() {
    let read = |ret, id| FieldRead { ret, value: value(id, 'i', 0.0, id as i64, b"") };
    let kept = collect_metrics_by_fields(vec![
        (0, vec![read(0, 1), read(-1, 2), read(0, 3)]),
        (1, vec![read(-1, 1)]),
        (2, vec![]),
        (3, vec![read(0, 9)]),
    ]);
    let ids: Vec<(u32, Vec<u16>)> =
        kept.iter().map(|(g, v)| (*g, v.iter().map(|f| f.field_id).collect())).collect();
    assert_eq!(ids, vec![(0, vec![1, 3]), (3, vec![9])]);
    assert_eq!(read_report(0, 0), ReadReport::Nothing);
    assert_eq!(read_report(0, DCGM_ST_NO_DATA), ReadReport::NoData);
    assert_eq!(read_report(0, -3), ReadReport::BadStatus);
    assert_eq!(read_report(-3, 0), ReadReport::Failed);
}

fn owners() -> PodResourcesMapper {
    let mut data = TextMap::new();
    data.insert(
        "GPU-1".to_string(),
        PodInfo {
            pod: "train".to_string(),
            namespace: "ml".to_string(),
            container: "main".to_string(),
        },
    );
    let mut mapper = PodResourcesMapper::new();
    mapper.update(&data);
    mapper
}

fn tag(m: &Metric<f64>, name: &str) -> Option<String> {
    m.tag_value(name)
}

#[test]
fn metrics_tell_readings() {
    let ts = Timestamp { secs: 5, nanos: 6 };
    let data = vec![(
        2u32,
        vec![
            value(155, 'd', 71.5, 0, b""),
            value(54, 's', 0.0, 0, b"GPU-1"),
            value(50, 's', 0.0, 0, b"H100"),
            value(53, 's', 0.0, 0, b"sn"),
            value(99, 's', 0.0, 0, b"odd"),
            value(53, 's', 0.0, 0, &[0xff]),
            value(230, 'i', 0.0, -4, b""),
            value(98, 't', 0.0, 77, b""),
            value(97, 'b', 1.0, 1, b""),
            value(96, 'x', 1.0, 1, b""),
        ],
    )];
    let metrics = map_metrics_at(ts, &table(), "slow", &data, &owners());
    assert_eq!(metrics.len(), 3);
    assert_eq!(metrics[0].name, "DCGM_FI_DEV_POWER_USAGE");
    assert!(matches!(metrics[0].value, MetricValue::Gauge { value } if value == 71.5));
    assert_eq!(metrics[1].name, "DCGM_FI_DEV_XID_ERRORS");
    assert!(matches!(metrics[1].value, MetricValue::IntegerGauge { whole: -4 }));
    assert_eq!(metrics[2].name, "unknown_metric");
    assert!(matches!(metrics[2].value, MetricValue::IntegerGauge { whole: 77 }));
    for m in &metrics {
        assert_eq!(m.kind, MetricKind::Absolute);
        assert_eq!(m.timestamp, Some(ts));
        assert_eq!(tag(m, "gpu_id").as_deref(), Some("2"));
        assert_eq!(tag(m, "group").as_deref(), Some("slow"));
        assert_eq!(tag(m, "UUID").as_deref(), Some("GPU-1"));
        assert_eq!(tag(m, "model_name").as_deref(), Some("H100"));
        assert_eq!(tag(m, "DCGM_FI_DEV_SERIAL").as_deref(), Some("sn"));
        assert_eq!(tag(m, "unknown_field").as_deref(), Some("odd"));
        assert_eq!(tag(m, "namespace").as_deref(), Some("ml"));
        assert_eq!(tag(m, "pod").as_deref(), Some("train"));
        assert_eq!(tag(m, "container").as_deref(), Some("main"));
    }
}

#[test]
fn gpus_that_were_given_to_nobody_name_nobody() {
    let data = vec![
        (0u32, vec![value(155, 'd', 1.0, 0, b"")]),
        (1, vec![value(54, 's', 0.0, 0, b"GPU-2"), value(155, 'd', 2.0, 0, b"")]),
    ];
    let metrics = map_metrics(&table(), "g", &data, &owners());
    assert_eq!(metrics.len(), 2);
    assert_eq!(tag(&metrics[0], "UUID"), None);
    assert_eq!(tag(&metrics[1], "UUID").as_deref(), Some("GPU-2"));
    assert_eq!(tag(&metrics[1], "pod"), None);
}

fn devices(kind: &str, ids: &[&str]) -> ContainerDevices {
    ContainerDevices {
        resource_name: kind.to_string(),
        device_ids: ids.iter().map(|s| s.to_string()).collect(),
    }
}

fn pods() -> Vec<PodResources> {
    vec![
        PodResources {
            name: "a".to_string(),
            namespace: "x".to_string(),
            containers: vec![
                ContainerResources {
                    name: "c1".to_string(),
                    devices: vec![
                        devices("nvidia.com/gpu", &["g1", "g2"]),
                        devices("rdma/hca", &["g3"]),
                    ],
                },
                ContainerResources { name: "c2".to_string(), devices: vec![] },
            ],
        },
        PodResources {
            name: "b".to_string(),
            namespace: "y".to_string(),
            containers: vec![ContainerResources {
                name: "c3".to_string(),
                devices: vec![devices("nvidia.com/gpu", &["g2"])],
            }],
        },
    ]
}

#[test]
fn gpus_have_owners() {
    let owners = gpu_owners(&pods());
    assert_eq!(owners.len(), 2);
    let g1 = owners.get("g1").unwrap();
    assert_eq!((g1.pod.as_str(), g1.namespace.as_str(), g1.container.as_str()), ("a", "x", "c1"));
    assert_eq!(owners.get("g2").unwrap().container, "c3");
    assert!(owners.get("g3").is_none());
}

#[test]
fn owners_are_kept_up_to_date() {
    let mut refresher = PodResourcesRefresher::new(PodResourcesMapper::default());
    assert_eq!(refresher.run_step(RefreshEvent::Listed(pods())), RefreshAction::AskAfter(10));
    assert_eq!(refresher.mapper().get("g1").unwrap().pod, "a");
    assert_eq!(refresher.run_step(RefreshEvent::ListFailed), RefreshAction::AskAfter(10));
    assert_eq!(refresher.run_step(RefreshEvent::ConnectFailed), RefreshAction::AskAfter(10));
    assert_eq!(refresher.mapper().get("g1").unwrap().pod, "a");
    assert_eq!(refresher.run_step(RefreshEvent::Listed(vec![])), RefreshAction::AskAfter(10));
    assert!(refresher.mapper().get("g1").is_none());
    assert_eq!(refresher.run_step(RefreshEvent::NoSocket), RefreshAction::Stop);
    assert_eq!(PodInfo::default().pod, "");
}

use telemetry_collectors::clickhouse_any_table::{
    flatten, keep_batch, AnyEvent, ClickhouseAnyTableSink, FieldValue, Flattened, Item,
    KeyPartitioner as AnyPartitioner, PartitionKey as AnyKey, Record,
};
use telemetry_collectors::clickhouse_metrics::config::{
    healthcheck, BuildError, ClickhouseMetricsConfig,
};
use telemetry_collectors::clickhouse_metrics::errors::ClickhouseMetricsError;
use telemetry_collectors::clickhouse_metrics::service::{
    build_request, insert_rows, plan_insert, rows_of, ClickhouseResponse, Event, EventStatus,
    KeyPartitioner, MetricsRow, PartitionKey, RowValue, Template,
};
use telemetry_collectors::clickhouse_metrics::sink::{Auth, ClickhouseMetricsSink};
use telemetry_collectors::clock::Timestamp;
use telemetry_collectors::log::LogEvent;
use telemetry_collectors::metric::{Metric, MetricKind, MetricValue};
use telemetry_collectors::prometheus::uri::UriParts;
use telemetry_collectors::table::{TextMap, TextSet};

const TS: Timestamp = Timestamp { secs: 100, nanos: 7 };

fn metric(value: MetricValue<f64>) -> Metric<f64> {
    let mut m = Metric::new("m".to_string(), MetricKind::Absolute, value);
    m.timestamp = Some(TS);
    m
}

fn row(value: MetricValue<f64>) -> Result<MetricsRow<f64>, ClickhouseMetricsError> {
    MetricsRow::try_from(Event::Metric(metric(value)))
}

fn template(s: &str) -> Template {
    Template { source: s.to_string() }
}

fn basic() -> Auth {
    Auth::Basic { user: "u".to_string(), password: "p".to_string() }
}

fn bearer() -> Auth {
    Auth::Bearer { token: "t".to_string() }
}

#[test]
fn rows_tell_metrics() {
    let mut m = metric(MetricValue::Gauge { value: 2.5 });
    m.replace_tag("b".to_string(), "1".to_string());
    m.tags.insert("a".to_string(), "x".to_string());
    m.tags.insert("a".to_string(), "y".to_string());
    m.tags.insert("a".to_string(), "x".to_string());
    let r = MetricsRow::try_from(Event::Metric(m)).unwrap();
    assert_eq!(r.timestamp, TS);
    assert_eq!(r.name, "m");
    let tags: Vec<(&str, &str)> =
        r.tags.iter().map(|(k, v)| (k.as_str(), v.as_str())).collect();
    assert_eq!(tags, vec![("a", "y"), ("a", "x"), ("b", "1")]);
    assert!(matches!(r.val, RowValue::Reading(v) if v == 2.5));
    assert!(row(MetricValue::Gauge { value: 2.5 }).unwrap().tags.is_empty());
}

#[test]
fn values_of_rows() {
    assert!(matches!(
        row(MetricValue::Counter { value: 1.5 }).unwrap().val,
        RowValue::Reading(v) if v == 1.5
    ));
    assert!(matches!(
        row(MetricValue::IntegerGauge { whole: -2 }).unwrap().val,
        RowValue::Whole(-2)
    ));
    let mut three = TextSet::new();
    assert!(three.insert("c".to_string()));
    assert!(three.insert("a".to_string()));
    assert!(!three.insert("c".to_string()));
    assert!(three.insert("b".to_string()));
    assert!(three.contains("a") && !three.contains("d"));
    assert_eq!(three.clone().len(), 3);
    assert!(matches!(
        row(MetricValue::UniqueTexts { values: three }).unwrap().val,
        RowValue::Count(3)
    ));
    assert!(matches!(
        row(MetricValue::Distribution { samples: vec![] }).unwrap().val,
        RowValue::Zero
    ));
    assert!(matches!(
        row(MetricValue::Distribution { samples: vec![1.0, 2.0] }).unwrap().val,
        RowValue::MeanOf(v) if v == vec![1.0, 2.0]
    ));
    for zero in [
        MetricValue::AggregatedHistogram { count: 0, sum: 5.0 },
        MetricValue::AggregatedSummary { count: 0, sum: 5.0 },
    ] {
        assert!(matches!(row(zero).unwrap().val, RowValue::Zero));
    }
    for mean in [
        MetricValue::AggregatedHistogram { count: 4, sum: 6.0 },
        MetricValue::AggregatedSummary { count: 4, sum: 6.0 },
    ] {
        assert!(matches!(
            row(mean).unwrap().val,
            RowValue::Mean { sum, count: 4 } if sum == 6.0
        ));
    }
}

#[test]
fn events_without_rows() {
    let log: Event<f64> = Event::Log(LogEvent::new());
    assert!(matches!(
        MetricsRow::try_from(log).unwrap_err(),
        ClickhouseMetricsError::NotMetrics
    ));
    let mut m = metric(MetricValue::Gauge { value: 1.0 });
    m.timestamp = None;
    m.kind = MetricKind::Incremental;
    assert!(matches!(
        MetricsRow::try_from(Event::Metric(m)).unwrap_err(),
        ClickhouseMetricsError::EmptyTimestamp
    ));
    let mut m = metric(MetricValue::Sketch { shown: "s".to_string() });
    m.kind = MetricKind::Incremental;
    match MetricsRow::try_from(Event::Metric(m)).unwrap_err() {
        ClickhouseMetricsError::UnsupportedMetricKind(k) => assert_eq!(k, "Incremental"),
        other => panic!("{:?}", other),
    }
    match row(MetricValue::Sketch { shown: "shown".to_string() }).unwrap_err() {
        ClickhouseMetricsError::UnsupportedMetricValueType(t) => assert_eq!(t, "shown"),
        other => panic!("{:?}", other),
    }
}

#[test]
fn requests_are_written_whole_or_not_at_all() {
    let good = || Event::Metric(metric(MetricValue::Gauge { value: 1.0 }));
    assert_eq!(rows_of(vec![good(), good()]).unwrap().len(), 2);
    let bad = || {
        let mut m = metric(MetricValue::Gauge { value: 1.0 });
        m.timestamp = None;
        Event::Metric(m)
    };
    assert!(matches!(
        rows_of(vec![good(), bad(), Event::Log(LogEvent::new())]).unwrap_err(),
        ClickhouseMetricsError::EmptyTimestamp
    ));
    let failed = || rows_of(vec![bad()]);
    match insert_rows(Err("no table".to_string()), failed()) {
        Err(ClickhouseMetricsError::ClickhouseError(m)) => assert_eq!(m, "no table"),
        other => panic!("{:?}", other),
    }
    assert!(matches!(
        insert_rows(Ok(()), failed()),
        Err(ClickhouseMetricsError::EmptyTimestamp)
    ));
    assert_eq!(insert_rows(Ok(()), rows_of(vec![good()])).unwrap().len(), 1);
}

#[test]
fn messages_of_errors() {
    type E = ClickhouseMetricsError;
    assert_eq!(E::EmptyAuth.message(), "auth can not empty");
    assert_eq!(E::BearerUnsupported.message(), "bearer not supported");
    assert_eq!(E::NotMetrics.message(), "event must be metrics datatype");
    assert_eq!(E::EmptyTimestamp.message(), "event timestamp can not be empty");
    assert_eq!(
        E::UnsupportedMetricValueType("x".to_string()).message(),
        "unsupported metric value type x"
    );
    assert_eq!(
        E::UnsupportedMetricKind("Incremental".to_string()).message(),
        "unsupported metric kind Incremental"
    );
    assert_eq!(E::ClickhouseError("why".to_string()).message(), "clickhouse error");
}

#[test]
fn events_go_where_the_templates_say() {
    let p = KeyPartitioner::new(template("d"), template("t"));
    assert_eq!(p.templates().0.source, "d");
    let ok = |s: &str| -> Result<String, ()> { Ok(s.to_string()) };
    let key = p.partition(ok("db"), ok("tb")).unwrap();
    assert_eq!(key, PartitionKey { database: "db".to_string(), table: "tb".to_string() });
    assert_eq!(p.partition(Err(()), ok("tb")), None);
    assert_eq!(p.partition(ok("db"), Err(())), None);
}

#[test]
fn requests_for_batches() {
    let key = || Some(PartitionKey { database: "d".to_string(), table: "t".to_string() });
    let events = || vec![Event::Metric(metric(MetricValue::Gauge { value: 1.0 }))];
    let q = build_request(key(), events(), 12).unwrap();
    assert_eq!(q.key.table, "t");
    assert_eq!(q.get_metadata().event_count, 1);
    assert_eq!(q.get_metadata().request_size, 12);
    assert!(build_request(key(), events(), 0).is_none());
    assert!(build_request(None, events(), 12).is_none());
    let answer = ClickhouseResponse::new(12);
    assert!(answer.is_successful());
    assert!(answer.is_transient());
    assert_eq!(answer.event_status(), EventStatus::Delivered);
    assert_eq!(answer.events_sent(), 12);
    assert_eq!(answer.bytes_sent(), None);
}

#[test]
fn credentials_are_needed_once() {
    let build = |own: Option<Auth>, other: Option<Auth>| {
        let mut config = ClickhouseMetricsConfig::default();
        config.auth = own;
        config.table = template("tb");
        config.build("http://localhost:8123/".to_string(), other, 5u8)
    };
    match build(None, None).err().unwrap() {
        BuildError::Sink(ClickhouseMetricsError::EmptyAuth) => {}
        other => panic!("{:?}", other),
    }
    assert_eq!(build(None, None).err().unwrap().message(), "auth can not empty");
    assert_eq!(
        build(Some(basic()), Some(basic())).err().unwrap().message(),
        "Two authorization credentials was provided."
    );
    assert_eq!(build(Some(bearer()), None).err().unwrap().message(), "bearer not supported");
    assert_eq!(build(None, Some(bearer())).err().unwrap().message(), "bearer not supported");
    let (client, partitioner, batch) = build(None, Some(basic())).unwrap().into_parts();
    assert_eq!(client.url, "http://localhost:8123/");
    assert_eq!(client.user, "u");
    assert_eq!(client.password, "p");
    assert_eq!(client.skip_unknown_fields, None);
    assert_eq!(partitioner.templates().0.source, "default");
    assert_eq!(partitioner.templates().1.source, "tb");
    assert_eq!(batch, 5);
    assert!(healthcheck().is_ok());
    let sink = ClickhouseMetricsSink::new(
        "e".to_string(),
        basic(),
        template("{{ db }}"),
        template("t"),
        (),
    )
    .unwrap();
    assert_eq!(sink.into_parts().1.templates().0.source, "{{ db }}");
    let config = ClickhouseMetricsConfig::default();
    assert!(!config.acknowledgements());
    assert_eq!(config.endpoint, "/");
}

#[test]
fn unknown_fields_are_skipped_as_configured() {
    let options = |skip: Option<bool>| {
        let mut config = ClickhouseMetricsConfig::default();
        config.auth = Some(basic());
        config.skip_unknown_fields = skip;
        let sink = config.build("http://localhost:8123/".to_string(), None, ()).unwrap();
        sink.into_parts().0.options()
    };
    let setting = |value: &str| {
        vec![("input_format_skip_unknown_fields".to_string(), value.to_string())]
    };
    assert_eq!(options(Some(true)), setting("1"));
    assert_eq!(options(Some(false)), setting("0"));
    assert_eq!(options(None), vec![]);
}

#[test]
fn rows_go_where_the_key_says() {
    let p = KeyPartitioner::new(template("{{ db }}"), template("{{ t }}"));
    let key = p.partition::<()>(Ok("db1".to_string()), Ok("t1".to_string()));
    let mut second = metric(MetricValue::Gauge { value: 2.0 });
    second.name = "n".to_string();
    let events =
        vec![Event::Metric(metric(MetricValue::Gauge { value: 1.0 })), Event::Metric(second)];
    let plan = plan_insert(build_request(key, events, 9).unwrap());
    assert_eq!((plan.database.as_str(), plan.table.as_str()), ("db1", "t1"));
    assert_eq!(plan.request_size, 9);
    let names: Vec<String> = plan.rows.unwrap().into_iter().map(|r| r.name).collect();
    assert_eq!(names, vec!["m", "n"]);
    let key = p.partition::<()>(Ok("db1".to_string()), Ok("t1".to_string()));
    let log: Event<f64> = Event::Log(LogEvent::new());
    let plan = plan_insert(build_request(key, vec![log], 9).unwrap());
    assert!(matches!(plan.rows, Err(ClickhouseMetricsError::NotMetrics)));
}

#[test]
fn generate_config() {
    let config = ClickhouseMetricsConfig::default();
    assert!(UriParts::parse(&config.endpoint).is_some());
    assert_eq!(config.table.source, "");
    assert!(config.database.is_none());
    assert!(config.skip_unknown_fields.is_none());
    assert!(config.auth.is_none());
}

fn record(fields: Vec<(&str, FieldValue<i32>)>) -> Record<i32> {
    let mut map = TextMap::new();
    for (k, v) in fields {
        map.insert(k.to_string(), v);
    }
    Record { fields: map }
}

fn named(s: &str) -> FieldValue<i32> {
    FieldValue::Bytes(s.as_bytes().to_vec())
}

fn object(pairs: &[(&str, i32)]) -> Item<i32> {
    Item::Object(pairs.iter().map(|(k, v)| (k.to_string(), *v)).collect())
}

#[test]
fn contents_become_events() {
    let r = record(vec![
        ("table", named("t1")),
        ("host", FieldValue::Other(1)),
        (
            "contents",
            FieldValue::Array(vec![
                object(&[("a", 1), ("table", 2)]),
                Item::Other(9),
                object(&[]),
            ]),
        ),
    ]);
    match flatten(r) {
        Flattened::Parts { base, overlays } => {
            assert_eq!(base.fields.len(), 2);
            assert!(base.fields.get("contents").is_none());
            assert_eq!(overlays.len(), 2);
            assert_eq!(overlays[0].table.as_deref(), Some("t1"));
            assert_eq!(overlays[0].values, vec![("a".to_string(), 1), ("table".to_string(), 2)]);
            assert_eq!(overlays[1].table.as_deref(), Some("t1"));
            assert!(overlays[1].values.is_empty());
        }
        other => panic!("{:?}", other),
    }
}

#[test]
fn other_events_stay() {
    match flatten(record(vec![("contents", FieldValue::Other(3))])) {
        Flattened::Whole(r) => {
            assert!(matches!(r.fields.get("contents"), Some(FieldValue::Other(3))));
        }
        other => panic!("{:?}", other),
    }
    match flatten(record(vec![("x", FieldValue::Other(3))])) {
        Flattened::Whole(r) => assert_eq!(r.fields.len(), 1),
        other => panic!("{:?}", other),
    }
    match flatten(record(vec![
        ("table", FieldValue::Bytes(vec![0xff])),
        ("contents", FieldValue::Array(vec![object(&[])])),
    ])) {
        Flattened::Parts { overlays, .. } => assert_eq!(overlays[0].table, None),
        other => panic!("{:?}", other),
    }
}

#[test]
fn events_go_to_the_tables_that_they_name() {
    let sink = ClickhouseAnyTableSink::new(1u8, 2u8, template("d"), 'f', 3u8);
    let (batch, p, builder, service) = sink.into_parts();
    assert_eq!((batch, builder, service), (1, 3, 2));
    let table = |e: AnyEvent<i32>| {
        p.partition::<i32, ()>(Ok("db".to_string()), &e).map(|k| {
            assert_eq!(k.database, "db");
            assert_eq!(k.format, 'f');
            k.table
        })
    };
    assert_eq!(
        table(AnyEvent::Log(record(vec![("table", named("t\u{e4}"))]))).as_deref(),
        Some("t\u{e4}")
    );
    for e in [
        AnyEvent::Other,
        AnyEvent::Log(record(vec![])),
        AnyEvent::Log(record(vec![("table", FieldValue::Other(1))])),
        AnyEvent::Log(record(vec![("table", FieldValue::Bytes(vec![0xc3]))])),
    ] {
        assert_eq!(table(e).as_deref(), Some("blackhole"));
    }
    let p: AnyPartitioner<char> = AnyPartitioner::new(template("d"), 'f');
    assert_eq!(p.partition::<i32, ()>(Err(()), &AnyEvent::Other), None);
}

#[test]
fn batches_that_go_nowhere_are_dropped() {
    let key = |t: &str| {
        Some(AnyKey { database: "d".to_string(), table: t.to_string(), format: 0u8 })
    };
    assert_eq!(keep_batch(key("blackhole"), 7), None);
    assert_eq!(keep_batch::<u8, i32>(None, 7), None);
    assert_eq!(keep_batch(key("t"), 7).map(|(k, b)| (k.table, b)), Some(("t".to_string(), 7)));
}

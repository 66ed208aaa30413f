use telemetry_collectors::log::{LogEvent, Value};
use telemetry_collectors::metric::{Metric, MetricKind, MetricTags, MetricValue};

fn s(text: &str) -> String {
    text.to_string()
}

#[test]
fn the_last_value_of_a_tag_is_read() {
    let mut tags = MetricTags::new();
    assert_eq!(tags.get("a"), None);
    tags.insert(s("a"), s("1"));
    tags.insert(s("a"), s("2"));
    tags.insert(s("b"), s("3"));
    assert_eq!(tags.get("a"), Some(s("2")));
    tags.insert(s("a"), s("1"));
    assert_eq!(tags.get("a"), Some(s("1")));
    assert_eq!(tags.get("b"), Some(s("3")));
    let all = vec![(s("a"), Some(s("2"))), (s("a"), Some(s("1"))), (s("b"), Some(s("3")))];
    assert_eq!(tags.iter_all(), all);
    assert_eq!(tags.clone().iter_all(), all);
    assert_eq!(tags.replace(s("a"), s("4")), Some(s("1")));
    assert_eq!(tags.replace(s("c"), s("5")), None);
    assert_eq!(tags.iter_all().len(), 3);
}

#[test]
fn a_replaced_tag_is_read() {
    let value = MetricValue::Counter { value: 1.0 };
    let mut metric = Metric::new(s("m"), MetricKind::Incremental, value);
    assert_eq!(metric.replace_tag(s("a"), s("1")), None);
    assert_eq!(metric.replace_tag(s("a"), s("2")), Some(s("1")));
    assert_eq!(metric.tag_value("a"), Some(s("2")));
    assert_eq!(metric.tag_value("b"), None);
    assert_eq!(metric.name, "m");
}

#[test]
fn fields_of_log_events() {
    let mut log = LogEvent::new();
    assert!(log.get("a").is_none());
    log.insert("a", Value::Integer(1));
    log.try_insert("a", Value::Null);
    assert!(matches!(log.get("a"), Some(Value::Integer(1))));
    log.insert_text("a", "x");
    assert!(matches!(log.get("a"), Some(Value::Text(t)) if t == "x"));
    log.try_insert("b", Value::Null);
    assert!(matches!(log.get("b"), Some(Value::Null)));
}

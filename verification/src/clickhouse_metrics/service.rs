//! Batches of metrics, and the rows that are written for them.
use vstd::prelude::*;

use super::errors::{ClickhouseMetricsError, ErrorView};
use crate::clock::Timestamp;
use crate::log::LogEvent;
use crate::metric::{pair_view, pairs_of, Metric, MetricKind, MetricTags, MetricValue, TagMap};
use crate::text::copy;

verus! {

/// A text with parts that are filled in for each event.
#[derive(Clone, Debug)]
pub struct Template {
    /// The text.
    pub source: String,
}

/// An event.
#[derive(Debug)]
pub enum Event<D> {
    /// A log event.
    Log(LogEvent),
    /// A metric.
    Metric(Metric<D>),
}

// ---------------------------------------------------------------------------
// Where events go
// ---------------------------------------------------------------------------
/// The database and table that events go to.
#[derive(Clone, Debug, Hash, PartialEq, Eq)]
pub struct PartitionKey {
    /// The database.
    pub database: String,
    /// The table.
    pub table: String,
}

/// Where an event goes, from what filling in both templates gave.
pub open spec fn key_of<E>(database: Result<String, E>, table: Result<String, E>) -> Option<
    PartitionKey,
> {
    match (database, table) {
        (Ok(database), Ok(table)) => Some(PartitionKey { database, table }),
        _ => None,
    }
}

/// Tells where events go.
#[derive(Clone, Debug)]
pub struct KeyPartitioner {
    database: Template,
    table: Template,
}

impl KeyPartitioner {
    /// The template of the database.
    pub closed spec fn database(&self) -> Template {
        self.database
    }

    /// The template of the table.
    pub closed spec fn table(&self) -> Template {
        self.table
    }

    /// Events go where these templates say.
    pub fn new(database: Template, table: Template) -> (r: KeyPartitioner)
        ensures
            r.database() == database,
            r.table() == table,
    {
        KeyPartitioner { database, table }
    }

    /// The templates of database and table, to be filled in for an event.
    pub fn templates(&self) -> (r: (&Template, &Template))
        ensures
            *r.0 == self.database(),
            *r.1 == self.table(),
    {
        (&self.database, &self.table)
    }

    /// What filling in a template gave, where it could be filled in.
    pub fn render<E>(filled: Result<String, E>) -> (r: Option<String>)
        ensures
            r == (match filled {
                Ok(s) => Some(s),
                Err(_) => None,
            }),
    {
        match filled {
            Ok(s) => Some(s),
            Err(_) => None,
        }
    }

    /// Where an event goes, from what filling in both templates gave. It goes nowhere
    /// where one could not be filled in.
    pub fn partition<E>(&self, database: Result<String, E>, table: Result<String, E>) -> (r: Option<
        PartitionKey,
    >)
        ensures
            match (database, table) {
                (Ok(d), Ok(t)) => r matches Some(k) && k.database == d && k.table == t,
                _ => r is None,
            },
            r == key_of(database, table),
    {
        match Self::render(database) {
            Some(database) => match Self::render(table) {
                Some(table) => Some(PartitionKey { database, table }),
                None => None,
            },
            None => None,
        }
    }
}

// ---------------------------------------------------------------------------
// Requests
// ---------------------------------------------------------------------------
/// What is known of a request.
#[derive(Clone, Copy, Debug, PartialEq, Eq, Structural)]
pub struct RequestMetadata {
    /// How many events it holds.
    pub event_count: usize,
    /// How large they are as JSON.
    pub request_size: usize,
}

/// Events that go to one table.
#[derive(Debug)]
pub struct ClickhouseMetricsBatchRequest<D> {
    /// Where they go.
    pub key: PartitionKey,
    /// The events.
    pub events: Vec<Event<D>>,
    /// What is known of them.
    pub metadata: RequestMetadata,
}

impl<D> ClickhouseMetricsBatchRequest<D> {
    /// What is known of the request.
    pub fn get_metadata(&self) -> (r: &RequestMetadata)
        ensures
            *r == self.metadata,
    {
        &self.metadata
    }
}

/// That `r` is the request for a batch of events of that size.
pub open spec fn requests<D>(
    r: Option<ClickhouseMetricsBatchRequest<D>>,
    key: Option<PartitionKey>,
    events: Vec<Event<D>>,
    json_size: usize,
) -> bool {
    if key is None || json_size == 0 {
        r is None
    } else {
        &&& r is Some
        &&& r->0.key == key->0
        &&& r->0.events == events
        &&& r->0.metadata.event_count == events@.len()
        &&& r->0.metadata.request_size == json_size
    }
}

/// The request for a batch of events whose size as JSON is `json_size`. There is none
/// where the events go nowhere or have no size.
pub fn build_request<D>(key: Option<PartitionKey>, events: Vec<Event<D>>, json_size: usize) -> (r:
    Option<ClickhouseMetricsBatchRequest<D>>)
    ensures
        match key {
            Some(k) => if json_size > 0 {
                &&& r matches Some(q)
                &&& q.key == k
                &&& q.events == events
                &&& q.metadata.event_count == events@.len()
                &&& q.metadata.request_size == json_size
            } else {
                r is None
            },
            None => r is None,
        },
        requests(r, key, events, json_size),
{
    match key {
        Some(key) => if json_size > 0 {
            let event_count: usize = events.len();
            Some(
                ClickhouseMetricsBatchRequest {
                    key,
                    events,
                    metadata: RequestMetadata { event_count, request_size: json_size },
                },
            )
        } else {
            None
        },
        None => None,
    }
}

/// What became of the events of a request.
#[derive(Clone, Copy, Debug, PartialEq, Eq, Structural)]
pub enum EventStatus {
    /// They were delivered.
    Delivered,
    /// They were not.
    Errored,
}

/// The answer to a request.
#[derive(Clone, Copy, Debug)]
pub struct ClickhouseResponse {
    events_byte_size: usize,
}

impl ClickhouseResponse {
    /// How large the events were as JSON.
    pub closed spec fn size(&self) -> usize {
        self.events_byte_size
    }

    /// The answer to a request of that size.
    pub fn new(events_byte_size: usize) -> (r: ClickhouseResponse)
        ensures
            r.size() == events_byte_size,
    {
        ClickhouseResponse { events_byte_size }
    }

    /// Whether the request went well: it did.
    pub fn is_successful(&self) -> (r: bool)
        ensures
            r,
    {
        true
    }

    /// Whether the answer may be another one next time: it may.
    pub fn is_transient(&self) -> (r: bool)
        ensures
            r,
    {
        true
    }

    /// What became of the events: they were delivered.
    pub fn event_status(&self) -> (r: EventStatus)
        ensures
            r == EventStatus::Delivered,
    {
        EventStatus::Delivered
    }

    /// How large the events were as JSON.
    pub fn events_sent(&self) -> (r: usize)
        ensures
            r == self.size(),
    {
        self.events_byte_size
    }

    /// How many bytes were sent: that is not known.
    pub fn bytes_sent(&self) -> (r: Option<usize>)
        ensures
            r is None,
    {
        None
    }
}

// ---------------------------------------------------------------------------
// Rows
// ---------------------------------------------------------------------------
/// The number that is written for a metric, with readings of type `D`.
#[derive(Debug)]
pub enum RowValue<D> {
    /// The reading.
    Reading(D),
    /// The whole number.
    Whole(i64),
    /// The count.
    Count(usize),
    /// Nought.
    Zero,
    /// The mean of the samples, of which there is at least one.
    MeanOf(Vec<D>),
    /// The sum divided by the count, which is not nought.
    Mean {
        /// The sum.
        sum: D,
        /// The count.
        count: u64,
    },
}

/// A row of the table.
#[derive(Debug)]
pub struct MetricsRow<D> {
    /// When the metric was read.
    pub timestamp: Timestamp,
    /// Its name.
    pub name: String,
    /// Its tags.
    pub tags: Vec<(String, String)>,
    /// Its value.
    pub val: RowValue<D>,
}

/// What is written for a value, or the text that shows a value for which nothing can
/// be written. An empty set of samples has the mean nought.
pub open spec fn row_value<D>(v: MetricValue<D>) -> Result<RowValue<D>, Seq<char>> {
    match v {
        MetricValue::Counter { value } => Ok(RowValue::Reading(value)),
        MetricValue::Gauge { value } => Ok(RowValue::Reading(value)),
        MetricValue::IntegerGauge { whole } => Ok(RowValue::Whole(whole)),
        MetricValue::UniqueTexts { values } => Ok(RowValue::Count(values@.len() as usize)),
        MetricValue::Distribution { samples } => if samples@.len() == 0 {
            Ok(RowValue::Zero)
        } else {
            Ok(RowValue::MeanOf(samples))
        },
        MetricValue::AggregatedHistogram { count, sum } => if count == 0 {
            Ok(RowValue::Zero)
        } else {
            Ok(RowValue::Mean { sum, count })
        },
        MetricValue::AggregatedSummary { count, sum } => if count == 0 {
            Ok(RowValue::Zero)
        } else {
            Ok(RowValue::Mean { sum, count })
        },
        MetricValue::Sketch { shown } => Err(shown@),
    }
}

/// The tags of a row, read as characters.
pub open spec fn row_tags(v: Seq<(String, String)>) -> Seq<(Seq<char>, Seq<char>)> {
    v.map_values(|p: (String, String)| (p.0@, p.1@))
}

/// Tags as they are written: an absent value is the empty text.
pub open spec fn written_tags(pairs: Seq<(Seq<char>, Option<Seq<char>>)>) -> Seq<
    (Seq<char>, Seq<char>),
> {
    pairs.map_values(
        |p: (Seq<char>, Option<Seq<char>>)|
            (
                p.0,
                match p.1 {
                    Some(v) => v,
                    None => ""@,
                },
            ),
    )
}

/// The pairs are exactly the values that the tags have, with the empty text for an
/// absent one.
pub open spec fn tells_tags(pairs: Seq<(Seq<char>, Seq<char>)>, tags: TagMap) -> bool {
    forall|k: Seq<char>, v: Seq<char>| #[trigger]
        pairs.contains((k, v)) <==> tags.contains_key(k) && (tags[k].contains(Some(v)) || (v == ""@
            && tags[k].contains(None)))
}

proof fn lemma_written_tags(
    pairs: Seq<(Seq<char>, Option<Seq<char>>)>,
    k: Seq<char>,
    v: Seq<char>,
)
    ensures
        written_tags(pairs).contains((k, v)) <==> pairs.contains((k, Some(v))) || (v == ""@
            && pairs.contains((k, None))),
{
    let w = written_tags(pairs);
    if w.contains((k, v)) {
        let i = choose|i: int| 0 <= i < w.len() && w[i] == (k, v);
        assert(pairs[i] == (k, pairs[i].1));
        match pairs[i].1 {
            Some(x) => {
                assert(pairs[i] == (k, Some(v)));
            },
            None => {
                assert(pairs[i] == (k, None::<Seq<char>>));
            },
        }
    }
    if pairs.contains((k, Some(v))) {
        let i = choose|i: int| 0 <= i < pairs.len() && pairs[i] == (k, Some(v));
        assert(w[i] == (k, v));
    }
    if v == ""@ && pairs.contains((k, None)) {
        let i = choose|i: int| 0 <= i < pairs.len() && pairs[i] == (k, None::<Seq<char>>);
        assert(w[i] == (k, v));
    }
}

/// Why there is no row for an event, where there is none.
pub open spec fn row_error<D>(e: Event<D>) -> Option<ErrorView> {
    match e {
        Event::Log(_) => Some(ErrorView::NotMetrics),
        Event::Metric(m) => if m.timestamp is None {
            Some(ErrorView::EmptyTimestamp)
        } else if m.kind != MetricKind::Absolute {
            Some(ErrorView::UnsupportedMetricKind("Incremental"@))
        } else {
            match row_value(m.value) {
                Ok(_) => None,
                Err(shown) => Some(ErrorView::UnsupportedMetricValueType(shown)),
            }
        },
    }
}

/// The row is the one for the event.
pub open spec fn row_fits<D>(row: MetricsRow<D>, e: Event<D>) -> bool {
    match e {
        Event::Log(_) => false,
        Event::Metric(m) => {
            &&& m.timestamp == Some(row.timestamp)
            &&& row.name@ == m.name@
            &&& row_tags(row.tags@) == written_tags(pairs_of(m.tags.rows()))
            &&& m.tags.rows_fit()
            &&& tells_tags(row_tags(row.tags@), m.tags@)
            &&& row_value(m.value) == Ok::<RowValue<D>, Seq<char>>(row.val)
        },
    }
}

fn write_tags(tags: &MetricTags) -> (r: Vec<(String, String)>)
    ensures
        row_tags(r@) == written_tags(pairs_of(tags.rows())),
        tags.rows_fit(),
        tells_tags(row_tags(r@), tags@),
{
    let pairs = tags.iter_all();
    let ghost pv = pairs@.map_values(|p: (String, Option<String>)| pair_view(p));
    let ghost want = written_tags(pv);
    let mut r: Vec<(String, String)> = Vec::new();
    let n: usize = pairs.len();
    let mut i: usize = 0;
    assert(row_tags(r@) =~= want.take(0));
    while i < n
        invariant
            n == pairs@.len(),
            i <= n,
            pv == pairs@.map_values(|p: (String, Option<String>)| pair_view(p)),
            want == written_tags(pv),
            row_tags(r@) == want.take(i as int),
        decreases n - i,
    {
        let value = match &pairs[i].1 {
            Some(v) => copy(v.as_str()),
            None => copy(""),
        };
        let p = (copy(pairs[i].0.as_str()), value);
        let ghost was = r@;
        let ghost now = (p.0@, p.1@);
        r.push(p);
        assert(pv[i as int] == pair_view(pairs@[i as int]));
        assert(row_tags(r@) =~= row_tags(was).push(now));
        assert(want.take(i + 1) =~= want.take(i as int).push(now));
        i = i + 1;
    }
    assert(want.take(n as int) =~= want);
    proof {
        assert forall|k: Seq<char>, v: Seq<char>| #[trigger]
            row_tags(r@).contains((k, v)) <==> tags@.contains_key(k) && (tags@[k].contains(Some(v))
                || (v == ""@ && tags@[k].contains(None))) by {
            lemma_written_tags(pv, k, v);
            assert(pv.contains((k, Some(v))) <==> tags@.contains_key(k) && tags@[k].contains(
                Some(v),
            ));
            assert(pv.contains((k, None)) <==> tags@.contains_key(k) && tags@[k].contains(None));
        }
    }
    r
}

fn write_value<D>(v: MetricValue<D>) -> (r: Result<RowValue<D>, String>)
    ensures
        match (r, row_value(v)) {
            (Ok(x), Ok(w)) => x == w,
            (Err(e), Err(shown)) => e@ == shown,
            _ => false,
        },
{
    match v {
        MetricValue::Counter { value } => Ok(RowValue::Reading(value)),
        MetricValue::Gauge { value } => Ok(RowValue::Reading(value)),
        MetricValue::IntegerGauge { whole } => Ok(RowValue::Whole(whole)),
        MetricValue::UniqueTexts { values } => Ok(RowValue::Count(values.len())),
        MetricValue::Distribution { samples } => if samples.len() == 0 {
            Ok(RowValue::Zero)
        } else {
            Ok(RowValue::MeanOf(samples))
        },
        MetricValue::AggregatedHistogram { count, sum } => if count == 0 {
            Ok(RowValue::Zero)
        } else {
            Ok(RowValue::Mean { sum, count })
        },
        MetricValue::AggregatedSummary { count, sum } => if count == 0 {
            Ok(RowValue::Zero)
        } else {
            Ok(RowValue::Mean { sum, count })
        },
        MetricValue::Sketch { shown } => Err(shown),
    }
}

impl<D> MetricsRow<D> {
    /// A row.
    pub fn new(
        timestamp: Timestamp,
        name: String,
        tags: Vec<(String, String)>,
        val: RowValue<D>,
    ) -> (r: MetricsRow<D>)
        ensures
            r == (MetricsRow { timestamp, name, tags, val }),
    {
        MetricsRow { timestamp, name, tags, val }
    }

    /// The row for an event.
    pub fn try_from(event: Event<D>) -> (r: Result<MetricsRow<D>, ClickhouseMetricsError>)
        ensures
            match r {
                Ok(row) => row_error(event) is None && row_fits(row, event),
                Err(e) => row_error(event) == Some(e@),
            },
    {
        let metric = match event {
            Event::Log(_) => {
                return Err(ClickhouseMetricsError::NotMetrics);
            },
            Event::Metric(m) => m,
        };
        let timestamp = match metric.timestamp {
            Some(t) => t,
            None => {
                return Err(ClickhouseMetricsError::EmptyTimestamp);
            },
        };
        if metric.kind != MetricKind::Absolute {
            return Err(ClickhouseMetricsError::UnsupportedMetricKind(copy("Incremental")));
        }
        let tags = write_tags(&metric.tags);
        match write_value(metric.value) {
            Ok(val) => Ok(MetricsRow::new(timestamp, metric.name, tags, val)),
            Err(shown) => Err(ClickhouseMetricsError::UnsupportedMetricValueType(shown)),
        }
    }
}

/// Why there are no rows for the events: because of the first for which there is none.
pub open spec fn first_row_error<D>(events: Seq<Event<D>>) -> Option<ErrorView>
    decreases events.len(),
{
    if events.len() == 0 {
        None
    } else {
        match row_error(events.first()) {
            Some(e) => Some(e),
            None => first_row_error(events.drop_first()),
        }
    }
}

/// One row for each event, in their order; or why there is none for the first for
/// which there is none.
pub open spec fn rows_fit<D>(
    r: Result<Vec<MetricsRow<D>>, ClickhouseMetricsError>,
    events: Seq<Event<D>>,
) -> bool {
    match r {
        Ok(rows) => {
            &&& first_row_error(events) is None
            &&& rows@.len() == events.len()
            &&& forall|i: int| 0 <= i < rows@.len() ==> row_fits(#[trigger] rows@[i], events[i])
        },
        Err(e) => first_row_error(events) == Some(e@),
    }
}

/// One row for each event, in their order; or why there is none for the first for
/// which there is none.
pub fn rows_of<D>(events: Vec<Event<D>>) -> (r: Result<Vec<MetricsRow<D>>, ClickhouseMetricsError>)
    ensures
        rows_fit(r, events@),
{
    let ghost all = events@;
    let mut rest = events;
    let mut rows: Vec<MetricsRow<D>> = Vec::new();
    let n: usize = rest.len();
    let mut i: usize = 0;
    assert(all.skip(0) =~= all);
    while i < n
        invariant
            n == all.len(),
            all == events@,
            i <= n,
            rest@ == all.skip(i as int),
            rows@.len() == i,
            first_row_error(all) == first_row_error(all.skip(i as int)),
            forall|j: int| 0 <= j < i ==> row_fits(#[trigger] rows@[j], all[j]),
        decreases n - i,
    {
        let ghost was = rest@;
        let e = rest.remove(0);
        assert(e == was.first());
        assert(rest@ =~= was.drop_first());
        assert(was.drop_first() =~= all.skip(i + 1));
        match MetricsRow::try_from(e) {
            Ok(row) => rows.push(row),
            Err(e) => {
                return Err(e);
            },
        }
        i = i + 1;
    }
    Ok(rows)
}

/// What is written for a request, and where.
#[derive(Debug)]
pub struct InsertPlan<D> {
    /// The database.
    pub database: String,
    /// The table.
    pub table: String,
    /// The rows, or why there are none.
    pub rows: Result<Vec<MetricsRow<D>>, ClickhouseMetricsError>,
    /// How large the events are as JSON.
    pub request_size: usize,
}

/// What is written for a request, and where: one row for each event, in their order,
/// into the table and the database that its key names.
pub fn plan_insert<D>(request: ClickhouseMetricsBatchRequest<D>) -> (r: InsertPlan<D>)
    ensures
        r.database@ == request.key.database@,
        r.table@ == request.key.table@,
        rows_fit(r.rows, request.events@),
        r.request_size == request.metadata.request_size,
{
    InsertPlan {
        database: request.key.database,
        table: request.key.table,
        rows: rows_of(request.events),
        request_size: request.metadata.request_size,
    }
}

/// That `r` are the rows that are written, once a table was opened for them.
pub open spec fn inserts<D>(
    r: Result<Vec<MetricsRow<D>>, ClickhouseMetricsError>,
    opened: Result<(), String>,
    rows: Result<Vec<MetricsRow<D>>, ClickhouseMetricsError>,
) -> bool {
    match opened {
        Ok(_) => r == rows,
        Err(m) => r matches Err(e) && e@ == ErrorView::ClickhouseError(m@),
    }
}

/// What is written for a request, from whether the table could be opened: a table
/// that could not is an error before any row is looked at.
pub fn insert_rows<D>(
    opened: Result<(), String>,
    rows: Result<Vec<MetricsRow<D>>, ClickhouseMetricsError>,
) -> (r: Result<Vec<MetricsRow<D>>, ClickhouseMetricsError>)
    ensures
        match opened {
            Err(m) => r matches Err(e) && e@ == ErrorView::ClickhouseError(m@),
            Ok(_) => r == rows,
        },
        inserts(r, opened, rows),
{
    match opened {
        Err(m) => Err(ClickhouseMetricsError::ClickhouseError(m)),
        Ok(_) => rows,
    }
}

/// A request is written whole or not at all: there are rows for its events exactly
/// where there is one for each of them.
pub proof fn law_rows_for_all_or_none<D>(events: Seq<Event<D>>)
    ensures
        first_row_error(events) is None <==> forall|i: int|
            0 <= i < events.len() ==> row_error(#[trigger] events[i]) is None,
    decreases events.len(),
{
    if events.len() > 0 {
        let rest = events.drop_first();
        law_rows_for_all_or_none(rest);
        if first_row_error(events) is None {
            assert forall|i: int| 0 <= i < events.len() implies row_error(
                #[trigger] events[i],
            ) is None by {
                if i > 0 {
                    assert(events[i] == rest[i - 1]);
                }
            }
        }
        if forall|i: int| 0 <= i < events.len() ==> row_error(#[trigger] events[i]) is None {
            assert(row_error(events[0]) is None);
            assert forall|i: int| 0 <= i < rest.len() implies row_error(
                #[trigger] rest[i],
            ) is None by {
                assert(rest[i] == events[i + 1]);
            }
        }
    }
}

// ---------------------------------------------------------------------------
// What the rows tell
// ---------------------------------------------------------------------------
/// The row of a metric tells its moment, its name, every value of every tag, and its
/// value.
pub proof fn law_row_tells_the_metric<D>(row: MetricsRow<D>, m: Metric<D>)
    requires
        row_fits(row, Event::Metric(m)),
    ensures
        m.timestamp == Some(row.timestamp),
        row.name@ == m.name@,
        forall|k: Seq<char>, v: Seq<char>|
            #![trigger row_tags(row.tags@).contains((k, v))]
            row_tags(row.tags@).contains((k, v)) <==> m.tags@.contains_key(k) && (
            m.tags@[k].contains(Some(v)) || (v.len() == 0 && m.tags@[k].contains(None))),
        m.value matches MetricValue::Counter { value } ==> row.val == RowValue::Reading(value),
        m.value matches MetricValue::Gauge { value } ==> row.val == RowValue::Reading(value),
        m.value matches MetricValue::IntegerGauge { whole } ==> row.val == RowValue::<D>::Whole(
            whole,
        ),
        m.value matches MetricValue::Distribution { samples } ==> {
            &&& samples@.len() == 0 ==> row.val is Zero
            &&& samples@.len() > 0 ==> row.val == RowValue::MeanOf(samples)
        },
        m.value matches MetricValue::AggregatedHistogram { count, sum } ==> {
            &&& count == 0 ==> row.val is Zero
            &&& count != 0 ==> row.val == (RowValue::Mean { sum, count })
        },
        m.value matches MetricValue::AggregatedSummary { count, sum } ==> {
            &&& count == 0 ==> row.val is Zero
            &&& count != 0 ==> row.val == (RowValue::Mean { sum, count })
        },
        m.value matches MetricValue::UniqueTexts { values } ==> values@.len() <= usize::MAX ==> (
        row.val matches RowValue::Count(n) && n == values@.len()),
        m.value !is Sketch,
{
    reveal_strlit("");
    assert forall|k: Seq<char>, v: Seq<char>|
        #![trigger row_tags(row.tags@).contains((k, v))]
        row_tags(row.tags@).contains((k, v)) <==> m.tags@.contains_key(k) && (m.tags@[k].contains(
            Some(v),
        ) || (v.len() == 0 && m.tags@[k].contains(None))) by {
        assert(v.len() == 0 <==> v =~= ""@);
    }
}

/// There is a row for every metric with a moment and an absolute value that is no
/// sketch, whatever the value is, and for nothing else.
pub proof fn law_absolute_metrics_have_rows<D>(e: Event<D>)
    ensures
        row_error(e) is None <==> (e matches Event::Metric(m) && {
            &&& m.timestamp is Some
            &&& m.kind is Absolute
            &&& m.value !is Sketch
        }),
        e is Log ==> row_error(e) == Some(ErrorView::NotMetrics),
        e matches Event::Metric(m) ==> {
            &&& m.timestamp is None ==> row_error(e) == Some(ErrorView::EmptyTimestamp)
            &&& m.timestamp is Some && m.kind is Incremental ==> row_error(e) == Some(
                ErrorView::UnsupportedMetricKind("Incremental"@),
            )
            &&& m.timestamp is Some && m.kind is Absolute ==> (
            m.value matches MetricValue::Sketch { shown } ==> row_error(e) == Some(
                ErrorView::UnsupportedMetricValueType(shown@),
            ))
        },
{
}

/// Of several events without a row the first is the one that is told of.
pub proof fn law_first_event_without_row_counts<D>(events: Seq<Event<D>>, k: int)
    requires
        0 <= k < events.len(),
        row_error(events[k]) is Some,
        forall|i: int| 0 <= i < k ==> row_error(#[trigger] events[i]) is None,
    ensures
        first_row_error(events) == row_error(events[k]),
    decreases events.len(),
{
    let rest = events.drop_first();
    assert(events.first() == events[0]);
    if k > 0 {
        assert(row_error(events[0]) is None);
        assert(rest[k - 1] == events[k]);
        assert forall|i: int| 0 <= i < k - 1 implies row_error(#[trigger] rest[i]) is None by {
            assert(rest[i] == events[i + 1]);
        }
        law_first_event_without_row_counts(rest, k - 1);
    }
}

/// What is written for the events of a request is one row for each, in their order.
pub proof fn law_rows_follow_the_events<D>(
    r: Result<Vec<MetricsRow<D>>, ClickhouseMetricsError>,
    events: Seq<Event<D>>,
    i: int,
)
    requires
        rows_fit(r, events),
        0 <= i < events.len(),
    ensures
        r matches Ok(rows) ==> rows@.len() == events.len() && row_fits(rows@[i], events[i]),
        row_error(events[i]) is Some ==> r is Err,
        (forall|j: int| 0 <= j < events.len() ==> row_error(#[trigger] events[j]) is None) ==> r
            is Ok,
{
    law_rows_for_all_or_none(events);
}

/// An event goes to the database and the table that its templates name, and nowhere
/// where one of them could not be filled in.
pub proof fn law_event_goes_where_both_templates_say<E>(d: String, t: String, e: E, f: E)
    ensures
        key_of::<E>(Ok(d), Ok(t)) is Some,
        key_of::<E>(Ok(d), Ok(t))->0.database == d,
        key_of::<E>(Ok(d), Ok(t))->0.table == t,
        key_of::<E>(Err(e), Ok(t)) is None,
        key_of::<E>(Ok(d), Err(e)) is None,
        key_of::<E>(Err(e), Err(f)) is None,
{
}

/// A batch that goes somewhere and has a size is requested as it is, and says how many
/// events it holds and how large they are; any other is not requested.
pub proof fn law_batches_with_a_size_are_requested<D>(
    r: Option<ClickhouseMetricsBatchRequest<D>>,
    key: Option<PartitionKey>,
    events: Vec<Event<D>>,
    json_size: usize,
)
    requires
        requests(r, key, events, json_size),
    ensures
        r is Some <==> key is Some && json_size > 0,
        r matches Some(q) ==> {
            &&& Some(q.key) == key
            &&& q.events == events
            &&& q.metadata.event_count == events@.len()
            &&& q.metadata.request_size == json_size
        },
{
}

/// Rows are written where the table could be opened, and what kept it closed is the
/// error else, whatever the rows are.
pub proof fn law_rows_are_written_to_an_open_table<D>(
    r: Result<Vec<MetricsRow<D>>, ClickhouseMetricsError>,
    rows: Result<Vec<MetricsRow<D>>, ClickhouseMetricsError>,
    m: String,
)
    ensures
        inserts(r, Ok(()), rows) ==> r == rows,
        inserts(r, Err(m), rows) ==> r is Err && r->Err_0@ == ErrorView::ClickhouseError(m@),
{
}

} // verus!

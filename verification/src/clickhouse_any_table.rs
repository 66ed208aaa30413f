//! Delivering log events to whichever ClickHouse table they name.
use vstd::prelude::*;

use crate::clickhouse_metrics::service::Template;
use crate::process::{utf8_of, utf8_text};
use crate::table::TextMap;
use crate::text::{copy, opt_text, same};

verus! {

// ---------------------------------------------------------------------------
// Events
// ---------------------------------------------------------------------------
/// One of several things that a field holds. What values are does not matter here.
#[derive(Debug)]
pub enum Item<V> {
    /// Named values, in the order of their names.
    Object(Vec<(String, V)>),
    /// Any other value.
    Other(V),
}

/// What a field holds.
#[derive(Debug)]
pub enum FieldValue<V> {
    /// Bytes.
    Bytes(Vec<u8>),
    /// Several things.
    Array(Vec<Item<V>>),
    /// Any other value.
    Other(V),
}

/// A log event.
#[derive(Debug)]
pub struct Record<V> {
    /// Its fields.
    pub fields: TextMap<FieldValue<V>>,
}

/// An event.
#[derive(Debug)]
pub enum AnyEvent<V> {
    /// A log event.
    Log(Record<V>),
    /// Any other event.
    Other,
}

/// The table that a log event names: the field `table`, where it holds UTF-8.
pub open spec fn named_table<V>(fields: Map<Seq<char>, FieldValue<V>>) -> Option<Seq<char>> {
    if fields.contains_key("table"@) {
        match fields["table"@] {
            FieldValue::Bytes(b) => utf8_of(b@),
            _ => None,
        }
    } else {
        None
    }
}

/// The table that a log event names.
pub fn table_of<V>(record: &Record<V>) -> (r: Option<String>)
    ensures
        opt_text(r) == named_table(record.fields@),
{
    match record.fields.get("table") {
        Some(FieldValue::Bytes(b)) => utf8_text(b),
        _ => None,
    }
}

// ---------------------------------------------------------------------------
// Events with contents
// ---------------------------------------------------------------------------
/// What a new event gets on top of the one that it was made from.
#[derive(Debug)]
pub struct Overlay<V> {
    /// The table.
    pub table: Option<String>,
    /// Named values, which come after the table and may take its place.
    pub values: Vec<(String, V)>,
}

/// What becomes of an event.
#[derive(Debug)]
pub enum Flattened<V> {
    /// It stays as it is.
    Whole(Record<V>),
    /// One event for each overlay takes its place: a copy of `base` with the overlay.
    Parts {
        /// What the events have in common.
        base: Record<V>,
        /// What each gets on top.
        overlays: Vec<Overlay<V>>,
    },
}

/// The rows of named values among the things.
pub open spec fn objects_in<V>(items: Seq<Item<V>>) -> Seq<Vec<(String, V)>>
    decreases items.len(),
{
    if items.len() == 0 {
        Seq::empty()
    } else {
        match items.last() {
            Item::Object(values) => objects_in(items.drop_last()).push(values),
            Item::Other(_) => objects_in(items.drop_last()),
        }
    }
}

/// The overlays are those of the things, each with the table.
pub open spec fn overlays_fit<V>(
    overlays: Seq<Overlay<V>>,
    items: Seq<Item<V>>,
    table: Option<Seq<char>>,
) -> bool {
    &&& overlays.len() == objects_in(items).len()
    &&& forall|i: int|
        0 <= i < overlays.len() ==> (#[trigger] overlays[i]).values == objects_in(items)[i]
            && opt_text(overlays[i].table) == table
}

/// What becomes of an event: one with several things in `contents` is replaced by one
/// event for each row of named values among them; any other stays as it is.
pub open spec fn flattened<V>(record: Record<V>, r: Flattened<V>) -> bool {
    let fields = record.fields@;
    if fields.contains_key("contents"@) && fields["contents"@] is Array {
        &&& r matches Flattened::Parts { base, overlays }
        &&& base.fields@ == fields.remove("contents"@)
        &&& overlays_fit(overlays@, fields["contents"@]->Array_0@, named_table(fields))
    } else {
        r matches Flattened::Whole(w) && w.fields@ == fields
    }
}

fn overlays_of<V>(items: Vec<Item<V>>, table: &Option<String>) -> (r: Vec<Overlay<V>>)
    ensures
        overlays_fit(r@, items@, opt_text(*table)),
{
    let ghost all = items@;
    let mut rest = items;
    let mut r: Vec<Overlay<V>> = Vec::new();
    let n: usize = rest.len();
    let mut i: usize = 0;
    assert(all.take(0) =~= Seq::<Item<V>>::empty());
    assert(all.skip(0) =~= all);
    while i < n
        invariant
            n == all.len(),
            i <= n,
            rest@ == all.skip(i as int),
            overlays_fit(r@, all.take(i as int), opt_text(*table)),
        decreases n - i,
    {
        assert(all.take(i + 1).drop_last() =~= all.take(i as int));
        assert(all.take(i + 1).last() == all[i as int]);
        let ghost was = rest@;
        let item = rest.remove(0);
        assert(item == was[0]);
        assert(rest@ =~= all.skip(i + 1));
        match item {
            Item::Object(values) => r.push(
                Overlay { table: crate::text::copy_opt(table), values },
            ),
            Item::Other(_) => {},
        }
        i = i + 1;
    }
    assert(all.take(n as int) =~= all);
    r
}

/// What becomes of a log event.
pub fn flatten<V>(record: Record<V>) -> (r: Flattened<V>)
    ensures
        flattened(record, r),
{
    let table = table_of(&record);
    let mut fields = record.fields;
    let ghost was = fields@;
    match fields.remove("contents") {
        Some(FieldValue::Array(items)) => {
            let overlays = overlays_of(items, &table);
            Flattened::Parts { base: Record { fields }, overlays }
        },
        Some(other) => {
            let _ = fields.insert(copy("contents"), other);
            assert(fields@ =~= was);
            Flattened::Whole(Record { fields })
        },
        None => {
            assert(fields@ =~= was);
            Flattened::Whole(Record { fields })
        },
    }
}

/// An event whose contents hold nothing but rows of named values is replaced by as
/// many events; things of any other kind are dropped.
pub proof fn law_one_event_for_each_object<V>(items: Seq<Item<V>>)
    ensures
        objects_in(items).len() <= items.len(),
        (forall|i: int| 0 <= i < items.len() ==> (#[trigger] items[i]) is Object) ==> objects_in(
            items,
        ).len() == items.len(),
        (forall|i: int| 0 <= i < items.len() ==> (#[trigger] items[i]) is Other) ==> objects_in(
            items,
        ).len() == 0,
    decreases items.len(),
{
    if items.len() > 0 {
        let rest = items.drop_last();
        law_one_event_for_each_object(rest);
        assert(forall|i: int| 0 <= i < rest.len() ==> rest[i] == items[i]);
        assert(items[items.len() - 1] == items.last());
    }
}

// ---------------------------------------------------------------------------
// Where events go
// ---------------------------------------------------------------------------
/// The database and table that events go to, in a format of type `F`.
#[derive(Clone, Debug, Hash, PartialEq, Eq)]
pub struct PartitionKey<F> {
    /// The database.
    pub database: String,
    /// The table.
    pub table: String,
    /// The format.
    pub format: F,
}

/// Tells where events go.
#[derive(Debug)]
pub struct KeyPartitioner<F> {
    database: Template,
    format: F,
}

/// The table of events that name none, which are not delivered.
pub open spec fn nowhere() -> Seq<char> {
    "blackhole"@
}

/// The table of an event.
pub open spec fn event_table<V>(e: AnyEvent<V>) -> Seq<char> {
    match e {
        AnyEvent::Log(record) => match named_table(record.fields@) {
            Some(t) => t,
            None => nowhere(),
        },
        AnyEvent::Other => nowhere(),
    }
}

/// That `r` is where an event goes, from what filling in the template of the database
/// gave.
pub open spec fn goes_to<F, V, E>(
    r: Option<PartitionKey<F>>,
    database: Result<String, E>,
    item: AnyEvent<V>,
    format: F,
) -> bool {
    match database {
        Err(_) => r is None,
        Ok(d) => r is Some && r->0.database == d && r->0.table@ == event_table(item) && r->0.format
            == format,
    }
}

impl<F: Copy> KeyPartitioner<F> {
    /// The template of the database.
    pub closed spec fn database(&self) -> Template {
        self.database
    }

    /// The format.
    pub closed spec fn format(&self) -> F {
        self.format
    }

    /// Events go to that database in that format.
    pub fn new(database: Template, format: F) -> (r: KeyPartitioner<F>)
        ensures
            r.database() == database,
            r.format() == format,
    {
        KeyPartitioner { database, format }
    }

    /// What filling in a template gave, where it could be filled in.
    pub fn render<E>(filled: Result<String, E>) -> (r: Option<String>)
        ensures
            r == (match filled {
                Ok(s) => Some(s),
                Err(_) => None,
            }),
    {
        match filled {
            Ok(s) => Some(s),
            Err(_) => None,
        }
    }

    /// Where an event goes, from what filling in the template of the database gave.
    pub fn partition<V, E>(&self, database: Result<String, E>, item: &AnyEvent<V>) -> (r: Option<
        PartitionKey<F>,
    >)
        ensures
            match database {
                Ok(d) => {
                    &&& r matches Some(k)
                    &&& k.database == d
                    &&& k.table@ == event_table(*item)
                    &&& k.format == self.format()
                },
                Err(_) => r is None,
            },
            goes_to(r, database, *item, self.format()),
    {
        let database = match Self::render(database) {
            Some(d) => d,
            None => {
                return None;
            },
        };
        let table = match item {
            AnyEvent::Log(record) => match table_of(record) {
                Some(t) => t,
                None => copy("blackhole"),
            },
            AnyEvent::Other => copy("blackhole"),
        };
        Some(PartitionKey { database, table, format: self.format })
    }
}

/// What is delivered of a batch.
pub open spec fn delivered<F, B>(key: Option<PartitionKey<F>>, batch: B) -> Option<
    (PartitionKey<F>, B),
> {
    if key is None || key->0.table@ == nowhere() {
        None
    } else {
        Some((key->0, batch))
    }
}

/// A batch that is delivered: one that goes to a table.
pub fn keep_batch<F, B>(key: Option<PartitionKey<F>>, batch: B) -> (r: Option<(PartitionKey<F>, B)>)
    ensures
        match key {
            Some(k) => if k.table@ == nowhere() {
                r is None
            } else {
                r == Some((k, batch))
            },
            None => r is None,
        },
        r == delivered(key, batch),
{
    match key {
        Some(k) => if same(k.table.as_str(), "blackhole") {
            None
        } else {
            Some((k, batch))
        },
        None => None,
    }
}

/// An event is delivered exactly where it is a log event that names a table, and that
/// table is not the one for events that go nowhere.
pub proof fn law_only_named_tables_are_delivered_to<V>(e: AnyEvent<V>)
    ensures
        event_table(e) != nowhere() <==> (e matches AnyEvent::Log(record) && named_table(
            record.fields@,
        ) matches Some(t) && t != nowhere()),
{
}

/// Delivers log events to the tables that they name.
#[derive(Debug)]
pub struct ClickhouseAnyTableSink<S, B, F, R> {
    batch_settings: B,
    service: S,
    database: Template,
    format: F,
    request_builder: R,
}

impl<S, B, F: Copy, R> ClickhouseAnyTableSink<S, B, F, R> {
    /// How batches are made.
    pub closed spec fn batch_settings(&self) -> B {
        self.batch_settings
    }

    /// What delivers.
    pub closed spec fn service(&self) -> S {
        self.service
    }

    /// The template of the database.
    pub closed spec fn database(&self) -> Template {
        self.database
    }

    /// The format.
    pub closed spec fn format(&self) -> F {
        self.format
    }

    /// What makes requests.
    pub closed spec fn request_builder(&self) -> R {
        self.request_builder
    }

    /// Delivers to the tables of a database.
    pub fn new(
        batch_settings: B,
        service: S,
        database: Template,
        format: F,
        request_builder: R,
    ) -> (r: ClickhouseAnyTableSink<S, B, F, R>)
        ensures
            r.batch_settings() == batch_settings,
            r.service() == service,
            r.database() == database,
            r.format() == format,
            r.request_builder() == request_builder,
    {
        ClickhouseAnyTableSink { batch_settings, service, database, format, request_builder }
    }

    /// How batches are made, where events go, what makes requests and what delivers
    /// them.
    pub fn into_parts(self) -> (r: (B, KeyPartitioner<F>, R, S))
        ensures
            r.0 == self.batch_settings(),
            r.1.database() == self.database(),
            r.1.format() == self.format(),
            r.2 == self.request_builder(),
            r.3 == self.service(),
    {
        (
            self.batch_settings,
            KeyPartitioner::new(self.database, self.format),
            self.request_builder,
            self.service,
        )
    }
}

// ---------------------------------------------------------------------------
// What becomes of events
// ---------------------------------------------------------------------------
/// The rows of named values among the things are taken in their order, and everything
/// else is left out.
pub proof fn law_objects_are_taken_in_order<V>(
    before: Seq<Item<V>>,
    values: Vec<(String, V)>,
    other: V,
)
    ensures
        objects_in(Seq::<Item<V>>::empty()).len() == 0,
        objects_in(before.push(Item::Object(values))) == objects_in(before).push(values),
        objects_in(before.push(Item::Other(other))) == objects_in(before),
{
    let a = before.push(Item::Object(values));
    let b = before.push(Item::Other(other));
    assert(a.drop_last() =~= before && b.drop_last() =~= before);
    assert(a.last() == Item::Object(values) && b.last() == Item::<V>::Other(other));
}

/// An event with several things in `contents` is replaced by one event for each row of
/// named values among them, with all other fields and the table; any other event stays
/// as it is.
pub proof fn law_contents_become_events<V>(
    record: Record<V>,
    r: Flattened<V>,
    items: Vec<Item<V>>,
    k: Seq<char>,
)
    requires
        flattened(record, r),
    ensures
        record.fields@.contains_key("contents"@) && record.fields@["contents"@]
            == FieldValue::Array(items) ==> (r matches Flattened::Parts { base, overlays } && {
            &&& !base.fields@.contains_key("contents"@)
            &&& k != "contents"@ ==> (base.fields@.contains_key(k) <==> record.fields@.contains_key(
                k,
            ))
            &&& k != "contents"@ && record.fields@.contains_key(k) ==> base.fields@[k]
                == record.fields@[k]
            &&& overlays@.len() == objects_in(items@).len()
            &&& forall|i: int|
                0 <= i < overlays@.len() ==> (#[trigger] overlays@[i]).values == objects_in(
                    items@,
                )[i] && opt_text(overlays@[i].table) == named_table(record.fields@)
        }),
        !record.fields@.contains_key("contents"@) || record.fields@["contents"@] !is Array ==> (
        r matches Flattened::Whole(w) && w.fields@ == record.fields@),
{
}

/// A log event goes to the table that its field `table` names, and to none where that
/// field is absent, holds no bytes, or bytes that are no text; any other event goes to
/// none.
pub proof fn law_event_goes_to_the_table_it_names<V>(record: Record<V>, b: Vec<u8>)
    ensures
        record.fields@.contains_key("table"@) && record.fields@["table"@] == FieldValue::<V>::Bytes(
            b,
        ) ==> {
            &&& named_table(record.fields@) == utf8_of(b@)
            &&& utf8_of(b@) matches Some(t) ==> event_table(AnyEvent::Log(record)) == t
            &&& utf8_of(b@) is None ==> event_table(AnyEvent::Log(record)) == "blackhole"@
        },
        !record.fields@.contains_key("table"@) || record.fields@["table"@] !is Bytes ==> {
            &&& named_table(record.fields@) is None
            &&& event_table(AnyEvent::Log(record)) == "blackhole"@
        },
        event_table(AnyEvent::<V>::Other) == "blackhole"@,
        nowhere() == "blackhole"@,
{
}

/// A batch is delivered as it is, unless it goes nowhere.
pub proof fn law_only_batches_for_a_table_are_delivered<F, B>(
    key: Option<PartitionKey<F>>,
    batch: B,
)
    ensures
        delivered(key, batch) is Some <==> key is Some && key->0.table@ != "blackhole"@,
        delivered(key, batch) is Some ==> delivered(key, batch) == Some((key->0, batch)),
{
}

/// An event goes to the database that its template names and to the table that the event
/// names, in the configured format; nowhere where the template could not be filled in.
pub proof fn law_event_goes_to_its_database_and_table<F, V, E>(
    r: Option<PartitionKey<F>>,
    d: String,
    e: E,
    record: Record<V>,
    table: Seq<char>,
    format: F,
)
    ensures
        goes_to::<F, V, E>(r, Err(e), AnyEvent::Log(record), format) ==> r is None,
        goes_to::<F, V, E>(r, Ok(d), AnyEvent::Log(record), format) ==> {
            &&& r is Some && r->0.database == d && r->0.format == format
            &&& named_table(record.fields@) == Some(table) ==> r->0.table@ == table
            &&& named_table(record.fields@) is None ==> r->0.table@ == "blackhole"@
        },
        goes_to::<F, V, E>(r, Ok(d), AnyEvent::Other, format) ==> r is Some && r->0.table@
            == "blackhole"@,
{
}

} // verus!

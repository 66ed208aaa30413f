//! The metrics that tell the readings of GPUs.
use vstd::prelude::*;

use super::collector::{gpu_views, FieldValue};
use super::fields::{
    field_type, name_of, resolve_field_id_to_name, FieldTable, FieldType, DCGM_FI_DEV_NAME,
    DCGM_FI_DEV_UUID,
};
use super::pod_resource_mapper::{OwnerMap, PodResourcesMapper};
use crate::clock::{now, Timestamp};
use crate::metric::{
    metric_views, value_of, values_of, with_value, without_value, Metric, MetricKind, MetricTags,
    MetricValue, MetricView, TagMap,
};
use crate::number::{decimal, decimal_u64};
use crate::process::{utf8_of, utf8_text};
use crate::text::{copy, opt_text};

verus! {

/// The text of a field that holds one.
pub open spec fn text_of_field<D>(f: FieldValue<D>) -> Option<Seq<char>> {
    if field_type(f.field_type) is Text {
        utf8_of(f.text@)
    } else {
        None
    }
}

/// A name, or what is taken in its place.
pub open spec fn or_text(name: Option<Seq<char>>, other: Seq<char>) -> Seq<char> {
    match name {
        Some(n) => n,
        None => other,
    }
}

/// The tag that tells the text of a field.
pub open spec fn tag_of_field(t: FieldTable, field_id: u16) -> Seq<char> {
    if field_id == DCGM_FI_DEV_UUID {
        "UUID"@
    } else if field_id == DCGM_FI_DEV_NAME {
        "model_name"@
    } else {
        or_text(name_of(t, field_id), "unknown_field"@)
    }
}

/// `tags` with the texts of the fields.
pub open spec fn text_tags<D>(t: FieldTable, tags: TagMap, fields: Seq<FieldValue<D>>) -> TagMap
    decreases fields.len(),
{
    if fields.len() == 0 {
        tags
    } else {
        let before = text_tags(t, tags, fields.drop_last());
        match text_of_field(fields.last()) {
            Some(text) => with_value(before, tag_of_field(t, fields.last().field_id), Some(text)),
            None => before,
        }
    }
}

/// The identifier of the GPU, as the last of its fields that tells it does.
pub open spec fn uuid_of<D>(fields: Seq<FieldValue<D>>) -> Option<Seq<char>>
    decreases fields.len(),
{
    if fields.len() == 0 {
        None
    } else {
        match text_of_field(fields.last()) {
            Some(text) => if fields.last().field_id == DCGM_FI_DEV_UUID {
                Some(text)
            } else {
                uuid_of(fields.drop_last())
            },
            None => uuid_of(fields.drop_last()),
        }
    }
}

/// The tags of all metrics of a GPU: its number, the group, its texts, and the
/// container that it was given to.
pub open spec fn gpu_tags<D>(
    t: FieldTable,
    gpu: u32,
    group: Seq<char>,
    fields: Seq<FieldValue<D>>,
    owners: OwnerMap,
) -> TagMap {
    let base = with_value(
        with_value(Map::empty(), "gpu_id"@, Some(decimal(gpu as int))),
        "group"@,
        Some(group),
    );
    let tags = text_tags(t, base, fields);
    match uuid_of(fields) {
        Some(uuid) => if owners.contains_key(uuid) {
            with_value(
                with_value(
                    with_value(tags, "namespace"@, Some(owners[uuid].namespace)),
                    "pod"@,
                    Some(owners[uuid].pod),
                ),
                "container"@,
                Some(owners[uuid].container),
            )
        } else {
            tags
        },
        None => tags,
    }
}

/// The value of a field that holds a number.
pub open spec fn number_of_field<D>(f: FieldValue<D>) -> Option<MetricValue<D>> {
    match field_type(f.field_type) {
        FieldType::Double => Some(MetricValue::Gauge { value: f.dbl }),
        FieldType::Int64 | FieldType::Timestamp => Some(MetricValue::IntegerGauge { whole: f.int }),
        _ => None,
    }
}

/// The metrics of the fields that hold numbers.
pub open spec fn number_metrics<D>(
    ts: Timestamp,
    t: FieldTable,
    tags: TagMap,
    fields: Seq<FieldValue<D>>,
) -> Seq<MetricView<D>>
    decreases fields.len(),
{
    if fields.len() == 0 {
        Seq::empty()
    } else {
        let before = number_metrics(ts, t, tags, fields.drop_last());
        match number_of_field(fields.last()) {
            Some(value) => before.push(
                MetricView {
                    name: or_text(name_of(t, fields.last().field_id), "unknown_metric"@),
                    kind: MetricKind::Absolute,
                    value,
                    timestamp: Some(ts),
                    tags,
                },
            ),
            None => before,
        }
    }
}

/// The metrics of all GPUs.
pub open spec fn gpu_metrics<D>(
    ts: Timestamp,
    t: FieldTable,
    group: Seq<char>,
    data: Seq<(u32, Seq<FieldValue<D>>)>,
    owners: OwnerMap,
) -> Seq<MetricView<D>>
    decreases data.len(),
{
    if data.len() == 0 {
        Seq::empty()
    } else {
        let (gpu, fields) = data.last();
        gpu_metrics(ts, t, group, data.drop_last(), owners) + number_metrics(
            ts,
            t,
            gpu_tags(t, gpu, group, fields, owners),
            fields,
        )
    }
}

fn name_or(table: &FieldTable, field_id: u16, other: &str) -> (r: String)
    ensures
        r@ == or_text(name_of(*table, field_id), other@),
{
    match resolve_field_id_to_name(table, field_id) {
        Some(name) => copy(name),
        None => copy(other),
    }
}

fn field_text<D>(f: &FieldValue<D>) -> (r: Option<String>)
    ensures
        opt_text(r) == text_of_field(*f),
{
    match FieldType::from(f.field_type) {
        FieldType::Text => utf8_text(&f.text),
        _ => None,
    }
}

fn collect_tags<D>(
    table: &FieldTable,
    gpu: u32,
    group: &str,
    fields: &Vec<FieldValue<D>>,
    pod_mapper: &PodResourcesMapper,
) -> (r: MetricTags)
    ensures
        r@ == gpu_tags(*table, gpu, group@, fields@, pod_mapper@),
{
    let mut tags = MetricTags::new();
    tags.insert(copy("gpu_id"), decimal_u64(gpu as u64));
    tags.insert(copy("group"), copy(group));
    let ghost base = tags@;
    let mut uuid: Option<String> = None;
    let n: usize = fields.len();
    let ghost all = fields@;
    let mut i: usize = 0;
    assert(all.take(0) =~= Seq::<FieldValue<D>>::empty());
    while i < n
        invariant
            n == all.len(),
            all == fields@,
            i <= n,
            tags@ == text_tags(*table, base, all.take(i as int)),
            opt_text(uuid) == uuid_of(all.take(i as int)),
        decreases n - i,
    {
        assert(all.take(i + 1).drop_last() =~= all.take(i as int));
        assert(all.take(i + 1).last() == all[i as int]);
        if let Some(text) = field_text(&fields[i]) {
            let id: u16 = fields[i].field_id;
            if id == DCGM_FI_DEV_UUID {
                uuid = Some(copy(text.as_str()));
                tags.insert(copy("UUID"), text);
            } else if id == DCGM_FI_DEV_NAME {
                tags.insert(copy("model_name"), text);
            } else {
                tags.insert(name_or(table, id, "unknown_field"), text);
            }
        }
        i = i + 1;
    }
    assert(all.take(n as int) =~= all);
    if let Some(id) = uuid {
        if let Some(owner) = pod_mapper.get(id.as_str()) {
            tags.insert(copy("namespace"), owner.namespace);
            tags.insert(copy("pod"), owner.pod);
            tags.insert(copy("container"), owner.container);
        }
    }
    tags
}

fn field_number<D: Copy>(f: &FieldValue<D>) -> (r: Option<MetricValue<D>>)
    ensures
        r == number_of_field(*f),
{
    match FieldType::from(f.field_type) {
        FieldType::Double => Some(MetricValue::Gauge { value: f.dbl }),
        FieldType::Int64 | FieldType::Timestamp => Some(MetricValue::IntegerGauge { whole: f.int }),
        _ => None,
    }
}

fn push_numbers<D: Copy>(
    metrics: &mut Vec<Metric<D>>,
    ts: Timestamp,
    table: &FieldTable,
    tags: &MetricTags,
    fields: &Vec<FieldValue<D>>,
)
    ensures
        metric_views(final(metrics)@) == metric_views(old(metrics)@) + number_metrics(
            ts,
            *table,
            tags@,
            fields@,
        ),
{
    let n: usize = fields.len();
    let ghost all = fields@;
    let ghost first = metric_views(metrics@);
    let mut i: usize = 0;
    assert(all.take(0) =~= Seq::<FieldValue<D>>::empty());
    assert(first + number_metrics(ts, *table, tags@, all.take(0)) =~= first);
    while i < n
        invariant
            n == all.len(),
            all == fields@,
            i <= n,
            metric_views(metrics@) == first + number_metrics(
                ts,
                *table,
                tags@,
                all.take(i as int),
            ),
        decreases n - i,
    {
        assert(all.take(i + 1).drop_last() =~= all.take(i as int));
        assert(all.take(i + 1).last() == all[i as int]);
        let ghost before = number_metrics(ts, *table, tags@, all.take(i as int));
        if let Some(value) = field_number(&fields[i]) {
            let m = Metric {
                name: name_or(table, fields[i].field_id, "unknown_metric"),
                kind: MetricKind::Absolute,
                value,
                timestamp: Some(ts),
                tags: tags.clone(),
            };
            let ghost was = metrics@;
            let ghost mv = m@;
            metrics.push(m);
            assert(metric_views(metrics@) =~= metric_views(was).push(mv));
            assert((first + before).push(mv) =~= first + before.push(mv));
        }
        i = i + 1;
    }
    assert(all.take(n as int) =~= all);
}

/// The metrics that tell the readings of GPUs, taken at `ts`.
pub fn map_metrics_at<D: Copy>(
    ts: Timestamp,
    table: &FieldTable,
    group_name: &str,
    data: &Vec<(u32, Vec<FieldValue<D>>)>,
    pod_mapper: &PodResourcesMapper,
) -> (r: Vec<Metric<D>>)
    ensures
        metric_views(r@) == gpu_metrics(
            ts,
            *table,
            group_name@,
            gpu_views(data@),
            pod_mapper@,
        ),
{
    let mut metrics: Vec<Metric<D>> = Vec::new();
    let n: usize = data.len();
    let ghost all = gpu_views(data@);
    let mut i: usize = 0;
    assert(metric_views(metrics@) =~= Seq::<MetricView<D>>::empty());
    assert(all.take(0) =~= Seq::<(u32, Seq<FieldValue<D>>)>::empty());
    while i < n
        invariant
            n == data@.len(),
            all == gpu_views(data@),
            i <= n,
            metric_views(metrics@) == gpu_metrics(
                ts,
                *table,
                group_name@,
                all.take(i as int),
                pod_mapper@,
            ),
        decreases n - i,
    {
        assert(all.take(i + 1).drop_last() =~= all.take(i as int));
        assert(all.take(i + 1).last() == (data@[i as int].0, data@[i as int].1@));
        let tags = collect_tags(table, data[i].0, group_name, &data[i].1, pod_mapper);
        push_numbers(&mut metrics, ts, table, &tags, &data[i].1);
        i = i + 1;
    }
    assert(all.take(n as int) =~= all);
    metrics
}

/// The metrics that tell the readings of GPUs, taken now.
pub fn map_metrics<D: Copy>(
    table: &FieldTable,
    group_name: &str,
    data: &Vec<(u32, Vec<FieldValue<D>>)>,
    pod_mapper: &PodResourcesMapper,
) -> (r: Vec<Metric<D>>)
    ensures
        exists|ts: Timestamp|
            metric_views(r@) == #[trigger] gpu_metrics(
                ts,
                *table,
                group_name@,
                gpu_views(data@),
                pod_mapper@,
            ),
{
    let ts = now();
    map_metrics_at(ts, table, group_name, data, pod_mapper)
}

// ---------------------------------------------------------------------------
// What holds of the metrics
// ---------------------------------------------------------------------------
/// Where the identifier of a GPU is known and the GPU was given to a container, the
/// metrics of the GPU name that container.
pub proof fn law_metrics_name_the_container<D>(
    t: FieldTable,
    gpu: u32,
    group: Seq<char>,
    fields: Seq<FieldValue<D>>,
    owners: OwnerMap,
)
    requires
        uuid_of(fields) is Some,
        owners.contains_key(uuid_of(fields)->0),
    ensures
        ({
            let tags = gpu_tags(t, gpu, group, fields, owners);
            let owner = owners[uuid_of(fields)->0];
            &&& value_of(tags, "namespace"@) == Some(owner.namespace)
            &&& value_of(tags, "pod"@) == Some(owner.pod)
            &&& value_of(tags, "container"@) == Some(owner.container)
        }),
{
    reveal_strlit("namespace");
    reveal_strlit("pod");
    reveal_strlit("container");
    assert("namespace"@[0] == 'n' && "pod"@[0] == 'p' && "container"@[0] == 'c');
}

/// Every metric of a GPU has the same tags and the same moment, and there is one for
/// each field that holds a number.
pub proof fn law_one_metric_for_each_number<D>(
    ts: Timestamp,
    t: FieldTable,
    tags: TagMap,
    fields: Seq<FieldValue<D>>,
    k: int,
)
    ensures
        number_metrics(ts, t, tags, fields).len() == count_numbers(fields),
        0 <= k < number_metrics(ts, t, tags, fields).len() ==> {
            let m = number_metrics(ts, t, tags, fields)[k];
            m.tags == tags && m.timestamp == Some(ts) && m.kind == MetricKind::Absolute
        },
    decreases fields.len(),
{
    if fields.len() > 0 {
        law_one_metric_for_each_number(ts, t, tags, fields.drop_last(), k);
    }
}

/// How many fields hold a number.
pub open spec fn count_numbers<D>(fields: Seq<FieldValue<D>>) -> nat
    decreases fields.len(),
{
    if fields.len() == 0 {
        0
    } else {
        count_numbers(fields.drop_last()) + if number_of_field(fields.last()) is Some {
            1nat
        } else {
            0nat
        }
    }
}

/// The type codes of fields that hold a number: `d` for a reading, `i` for a whole
/// number and `t` for a moment.
pub open spec fn numeric_code(code: u16) -> bool {
    code == 'd' as u16 || code == 'i' as u16 || code == 't' as u16
}

/// The metric tells the number of the field, under the field's name, whatever the
/// number is.
pub open spec fn tells_number<D>(t: FieldTable, m: MetricView<D>, f: FieldValue<D>) -> bool {
    &&& name_of(t, f.field_id) matches Some(n) ==> m.name == n
    &&& name_of(t, f.field_id) is None ==> m.name == "unknown_metric"@
    &&& f.field_type == 'd' as u16 ==> m.value == (MetricValue::Gauge { value: f.dbl })
    &&& f.field_type == 'i' as u16 || f.field_type == 't' as u16 ==> m.value == (
    MetricValue::<D>::IntegerGauge { whole: f.int })
}

/// The metrics of a GPU are those of its fields with a numeric type code, one for
/// each, in the order of the fields; all have the same tags and the same moment.
pub proof fn law_every_number_is_told<D>(
    ts: Timestamp,
    t: FieldTable,
    tags: TagMap,
    fields: Seq<FieldValue<D>>,
)
    ensures
        ({
            let numbers = fields.filter(|f: FieldValue<D>| numeric_code(f.field_type));
            let told = number_metrics(ts, t, tags, fields);
            &&& told.len() == numbers.len()
            &&& forall|k: int|
                #![trigger told[k]]
                0 <= k < told.len() ==> {
                    &&& tells_number(t, told[k], numbers[k])
                    &&& told[k].tags == tags
                    &&& told[k].timestamp == Some(ts)
                    &&& told[k].kind == MetricKind::Absolute
                }
        }),
    decreases fields.len(),
{
    reveal(Seq::filter);
    let p = |f: FieldValue<D>| numeric_code(f.field_type);
    if fields.len() > 0 {
        let rest = fields.drop_last();
        law_every_number_is_told(ts, t, tags, rest);
        let before = number_metrics(ts, t, tags, rest);
        let told = number_metrics(ts, t, tags, fields);
        let numbers = fields.filter(p);
        let f = fields.last();
        assert(numeric_code(f.field_type) <==> number_of_field(f) is Some);
        assert forall|k: int| #![trigger told[k]] 0 <= k < told.len() implies {
            &&& tells_number(t, told[k], numbers[k])
            &&& told[k].tags == tags
            &&& told[k].timestamp == Some(ts)
            &&& told[k].kind == MetricKind::Absolute
        } by {
            if k < before.len() {
                assert(told[k] == before[k]);
                assert(numbers[k] == rest.filter(p)[k]);
            } else {
                assert(numbers[k] == f);
            }
        }
    }
}

/// Field `i` holds a number, and the metrics of the GPU hold one that tells it.
pub proof fn law_number_is_among_the_metrics<D>(
    ts: Timestamp,
    t: FieldTable,
    tags: TagMap,
    fields: Seq<FieldValue<D>>,
    i: int,
)
    requires
        0 <= i < fields.len(),
        numeric_code(fields[i].field_type),
    ensures
        exists|k: int|
            0 <= k < number_metrics(ts, t, tags, fields).len() && tells_number(
                t,
                #[trigger] number_metrics(ts, t, tags, fields)[k],
                fields[i],
            ),
    decreases fields.len(),
{
    let rest = fields.drop_last();
    let before = number_metrics(ts, t, tags, rest);
    let told = number_metrics(ts, t, tags, fields);
    if i < rest.len() {
        assert(rest[i] == fields[i]);
        law_number_is_among_the_metrics(ts, t, tags, rest, i);
        let k = choose|k: int|
            0 <= k < before.len() && tells_number(t, #[trigger] before[k], fields[i]);
        assert(told[k] == before[k]);
    } else {
        assert(told[told.len() - 1] == told.last());
        assert(tells_number(t, told[told.len() - 1], fields[i]));
    }
}

/// Field `i` tells the text `v` under the tag `k`: the identifier under `UUID`, the
/// model under `model_name`, and any other text under the field's name.
pub open spec fn tells_text<D>(
    t: FieldTable,
    fields: Seq<FieldValue<D>>,
    i: int,
    k: Seq<char>,
    v: Seq<char>,
) -> bool {
    &&& 0 <= i < fields.len()
    &&& fields[i].field_type == 's' as u16
    &&& utf8_of(fields[i].text@) == Some(v)
    &&& if fields[i].field_id == 54 {
        k == "UUID"@
    } else if fields[i].field_id == 50 {
        k == "model_name"@
    } else {
        match name_of(t, fields[i].field_id) {
            Some(n) => k == n,
            None => k == "unknown_field"@,
        }
    }
}

proof fn lemma_without(v: Seq<Option<Seq<char>>>, x: Option<Seq<char>>, y: Option<Seq<char>>)
    ensures
        without_value(v, x).contains(y) <==> v.contains(y) && y != x,
    decreases v.len(),
{
    if v.len() > 0 {
        let rest = v.drop_last();
        let kept = without_value(rest, x);
        lemma_without(rest, x, y);
        assert(v =~= rest.push(v.last()));
        assert(v.contains(y) <==> rest.contains(y) || y == v.last()) by {
            if rest.contains(y) {
                let j = choose|j: int| 0 <= j < rest.len() && rest[j] == y;
                assert(v[j] == y);
            }
            if y == v.last() {
                assert(v[v.len() - 1] == y);
            }
            if v.contains(y) {
                let j = choose|j: int| 0 <= j < v.len() && v[j] == y;
                if j < rest.len() {
                    assert(rest[j] == y);
                }
            }
        }
        if v.last() != x {
            let w = kept.push(v.last());
            if kept.contains(y) {
                let j = choose|j: int| 0 <= j < kept.len() && kept[j] == y;
                assert(w[j] == y);
            }
            if y == v.last() {
                assert(w[w.len() - 1] == y);
            }
            if w.contains(y) {
                let j = choose|j: int| 0 <= j < w.len() && w[j] == y;
                if j < kept.len() {
                    assert(kept[j] == y);
                }
            }
        }
    }
}

proof fn lemma_given(
    tags: TagMap,
    name: Seq<char>,
    value: Option<Seq<char>>,
    k: Seq<char>,
    y: Option<Seq<char>>,
)
    ensures
        values_of(with_value(tags, name, value), k).contains(y) <==> values_of(tags, k).contains(y)
            || (k == name && y == value),
{
    let had = values_of(tags, name);
    let kept = without_value(had, value);
    let now = kept.push(value);
    lemma_without(had, value, y);
    if k == name {
        assert(values_of(with_value(tags, name, value), k) == now);
        if kept.contains(y) {
            let j = choose|j: int| 0 <= j < kept.len() && kept[j] == y;
            assert(now[j] == y);
        }
        if y == value {
            assert(now[now.len() - 1] == y);
        }
        if now.contains(y) {
            let j = choose|j: int| 0 <= j < now.len() && now[j] == y;
            if j < kept.len() {
                assert(kept[j] == y);
            }
        }
    }
}

proof fn lemma_text_tags<D>(
    t: FieldTable,
    tags: TagMap,
    fields: Seq<FieldValue<D>>,
    k: Seq<char>,
    y: Option<Seq<char>>,
)
    ensures
        values_of(text_tags(t, tags, fields), k).contains(y) <==> values_of(tags, k).contains(y)
            || (y is Some && exists|i: int| tells_text(t, fields, i, k, y->0)),
    decreases fields.len(),
{
    if fields.len() > 0 {
        let rest = fields.drop_last();
        let n = fields.len() - 1;
        let before = text_tags(t, tags, rest);
        lemma_text_tags(t, tags, rest, k, y);
        match text_of_field(fields.last()) {
            Some(text) => {
                lemma_given(before, tag_of_field(t, fields.last().field_id), Some(text), k, y);
            },
            None => {},
        }
        if y is Some {
            let v = y->0;
            if exists|i: int| tells_text(t, rest, i, k, v) {
                let i = choose|i: int| tells_text(t, rest, i, k, v);
                assert(tells_text(t, fields, i, k, v));
            }
            if exists|i: int| tells_text(t, fields, i, k, v) {
                let i = choose|i: int| tells_text(t, fields, i, k, v);
                if i < n {
                    assert(tells_text(t, rest, i, k, v));
                }
            }
            if text_of_field(fields.last()) == Some(v) && k == tag_of_field(
                t,
                fields.last().field_id,
            ) {
                assert(tells_text(t, fields, n, k, v));
            }
        }
    }
}

/// The tags of a GPU's metrics are exactly the GPU's number, the group, the texts of
/// its fields, and the namespace, the pod and the container that it was given to.
pub proof fn law_tags_tell_the_gpu<D>(
    t: FieldTable,
    gpu: u32,
    group: Seq<char>,
    fields: Seq<FieldValue<D>>,
    owners: OwnerMap,
    k: Seq<char>,
    y: Option<Seq<char>>,
)
    ensures
        values_of(gpu_tags(t, gpu, group, fields, owners), k).contains(y) <==> (y matches Some(v)
            && {
            ||| k == "gpu_id"@ && v == decimal(gpu as int)
            ||| k == "group"@ && v == group
            ||| exists|i: int| tells_text(t, fields, i, k, v)
            ||| uuid_of(fields) matches Some(uuid) && owners.contains_key(uuid) && {
                ||| k == "namespace"@ && v == owners[uuid].namespace
                ||| k == "pod"@ && v == owners[uuid].pod
                ||| k == "container"@ && v == owners[uuid].container
            }
        }),
{
    let none: TagMap = Map::empty();
    let b1 = with_value(none, "gpu_id"@, Some(decimal(gpu as int)));
    let b2 = with_value(b1, "group"@, Some(group));
    let b3 = text_tags(t, b2, fields);
    lemma_given(none, "gpu_id"@, Some(decimal(gpu as int)), k, y);
    lemma_given(b1, "group"@, Some(group), k, y);
    lemma_text_tags(t, b2, fields, k, y);
    match uuid_of(fields) {
        Some(uuid) => {
            if owners.contains_key(uuid) {
                let o = owners[uuid];
                let b4 = with_value(b3, "namespace"@, Some(o.namespace));
                let b5 = with_value(b4, "pod"@, Some(o.pod));
                lemma_given(b3, "namespace"@, Some(o.namespace), k, y);
                lemma_given(b4, "pod"@, Some(o.pod), k, y);
                lemma_given(b5, "container"@, Some(o.container), k, y);
            }
        },
        None => {},
    }
}

/// The identifier of a GPU is the text of the last of its fields that holds one under
/// the number of that field.
pub proof fn law_last_identifier_counts<D>(fields: Seq<FieldValue<D>>, i: int)
    ensures
        0 <= i < fields.len() && fields[i].field_type == 's' as u16 && fields[i].field_id == 54
            && utf8_of(fields[i].text@) is Some && (forall|j: int|
            i < j < fields.len() ==> !((#[trigger] fields[j]).field_type == 's' as u16
                && fields[j].field_id == 54 && utf8_of(fields[j].text@) is Some)) ==> uuid_of(
            fields,
        ) == utf8_of(fields[i].text@),
        (forall|j: int|
            0 <= j < fields.len() ==> !((#[trigger] fields[j]).field_type == 's' as u16
                && fields[j].field_id == 54 && utf8_of(fields[j].text@) is Some)) ==> uuid_of(
            fields,
        ) is None,
    decreases fields.len(),
{
    if fields.len() > 0 {
        let rest = fields.drop_last();
        assert(forall|j: int| 0 <= j < rest.len() ==> rest[j] == fields[j]);
        assert(fields.last() == fields[fields.len() - 1]);
        law_last_identifier_counts(rest, i);
    }
}

/// Where the text of a field is the last one under its tag, and no container tells the
/// same tag, it is the one that is read.
pub proof fn law_last_text_is_read<D>(
    t: FieldTable,
    tags: TagMap,
    fields: Seq<FieldValue<D>>,
    i: int,
    k: Seq<char>,
    v: Seq<char>,
)
    requires
        tells_text(t, fields, i, k, v),
        forall|j: int, w: Seq<char>| i < j ==> !(#[trigger] tells_text(t, fields, j, k, w)),
    ensures
        value_of(text_tags(t, tags, fields), k) == Some(v),
    decreases fields.len(),
{
    let rest = fields.drop_last();
    let n = fields.len() - 1;
    let before = text_tags(t, tags, rest);
    if i == n {
        crate::metric::law_given_value_is_read(before, k, v, k);
    } else {
        assert(tells_text(t, rest, i, k, v));
        assert forall|j: int, w: Seq<char>| i < j implies !(#[trigger] tells_text(
            t,
            rest,
            j,
            k,
            w,
        )) by {
            if tells_text(t, rest, j, k, w) {
                assert(tells_text(t, fields, j, k, w));
            }
        }
        law_last_text_is_read(t, tags, rest, i, k, v);
        match text_of_field(fields.last()) {
            Some(text) => {
                let name = tag_of_field(t, fields.last().field_id);
                assert(name != k) by {
                    if name == k {
                        assert(tells_text(t, fields, n, k, text));
                    }
                }
                crate::metric::law_given_value_is_read(before, name, text, k);
            },
            None => {},
        }
    }
}

/// The metrics of several GPUs are those of each, in their order.
pub proof fn law_gpus_are_told_one_by_one<D>(
    ts: Timestamp,
    t: FieldTable,
    group: Seq<char>,
    a: Seq<(u32, Seq<FieldValue<D>>)>,
    b: Seq<(u32, Seq<FieldValue<D>>)>,
    owners: OwnerMap,
)
    ensures
        gpu_metrics(ts, t, group, a + b, owners) == gpu_metrics(ts, t, group, a, owners)
            + gpu_metrics(ts, t, group, b, owners),
        a.len() == 1 ==> gpu_metrics(ts, t, group, a, owners) == number_metrics(
            ts,
            t,
            gpu_tags(t, a[0].0, group, a[0].1, owners),
            a[0].1,
        ),
    decreases b.len(),
{
    if a.len() == 1 {
        assert(gpu_metrics(ts, t, group, a.drop_last(), owners) =~= Seq::<MetricView<D>>::empty());
        assert(gpu_metrics(ts, t, group, a, owners) =~= number_metrics(
            ts,
            t,
            gpu_tags(t, a[0].0, group, a[0].1, owners),
            a[0].1,
        ));
    }
    let ga = gpu_metrics(ts, t, group, a, owners);
    if b.len() == 0 {
        assert(a + b =~= a);
        assert(ga + gpu_metrics(ts, t, group, b, owners) =~= ga);
    } else {
        let rest = b.drop_last();
        law_gpus_are_told_one_by_one(ts, t, group, a, rest, owners);
        assert((a + b).drop_last() =~= a + rest);
        assert((a + b).last() == b.last());
        let here = number_metrics(
            ts,
            t,
            gpu_tags(t, b.last().0, group, b.last().1, owners),
            b.last().1,
        );
        let gb = gpu_metrics(ts, t, group, rest, owners);
        assert((ga + gb) + here =~= ga + (gb + here));
    }
}

} // verus!

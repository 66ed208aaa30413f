//! Metrics.
//!
//! A metric's readings have a type of their own, which nothing here looks into:
//! readings are passed on as they are.
use vstd::prelude::*;

use crate::clock::Timestamp;
use crate::table::{
    ascending, lemma_read_rows, lemma_rows, lemma_same_reading, map_of, read_rows, row_has,
    TextMap, TextSet,
};
use crate::text::{copy, copy_opt, opt_text, same_opt};

verus! {

// ---------------------------------------------------------------------------
// Tags
// ---------------------------------------------------------------------------
/// Tags, read as characters: the values of each. A value may be absent.
pub type TagMap = Map<Seq<char>, Seq<Option<Seq<char>>>>;

/// Tags. One tag may have several values, of which the last one counts where one is
/// asked for.
#[derive(Debug)]
pub struct MetricTags {
    values: TextMap<Vec<Option<String>>>,
}

/// Values, read as characters.
pub open spec fn value_views(v: Seq<Option<String>>) -> Seq<Option<Seq<char>>> {
    v.map_values(|s: Option<String>| opt_text(s))
}

/// The last value that is not absent.
pub open spec fn last_value(v: Seq<Option<Seq<char>>>) -> Option<Seq<char>>
    decreases v.len(),
{
    if v.len() == 0 {
        None
    } else if v.last() is Some {
        v.last()
    } else {
        last_value(v.drop_last())
    }
}

/// The value of a tag.
pub open spec fn value_of(tags: TagMap, name: Seq<char>) -> Option<Seq<char>> {
    if tags.contains_key(name) {
        last_value(tags[name])
    } else {
        None
    }
}

/// The values of a tag, none where it is not there.
pub open spec fn values_of(tags: TagMap, name: Seq<char>) -> Seq<Option<Seq<char>>> {
    if tags.contains_key(name) {
        tags[name]
    } else {
        Seq::empty()
    }
}

/// Values without `x`.
pub open spec fn without_value(v: Seq<Option<Seq<char>>>, x: Option<Seq<char>>) -> Seq<
    Option<Seq<char>>,
>
    decreases v.len(),
{
    if v.len() == 0 {
        Seq::empty()
    } else if v.last() == x {
        without_value(v.drop_last(), x)
    } else {
        without_value(v.drop_last(), x).push(v.last())
    }
}

/// `tags` where `value` is the last of the values of `name`.
pub open spec fn with_value(tags: TagMap, name: Seq<char>, value: Option<Seq<char>>) -> TagMap {
    tags.insert(name, without_value(values_of(tags, name), value).push(value))
}

/// `tags` where `value` is the only value of `name`.
pub open spec fn with_only(tags: TagMap, name: Seq<char>, value: Seq<char>) -> TagMap {
    tags.insert(name, seq![Some(value)])
}

/// The value that a tag was given is the value that is read, whether it is the only
/// one or the last one, and no other tag is touched.
pub proof fn law_given_value_is_read(
    tags: TagMap,
    name: Seq<char>,
    value: Seq<char>,
    other: Seq<char>,
)
    ensures
        value_of(with_only(tags, name, value), name) == Some(value),
        value_of(with_value(tags, name, Some(value)), name) == Some(value),
        name != other ==> {
            &&& value_of(with_only(tags, name, value), other) == value_of(tags, other)
            &&& value_of(with_value(tags, name, Some(value)), other) == value_of(tags, other)
        },
{
    let rest = without_value(values_of(tags, name), Some(value));
    assert(rest.push(Some(value)).last() == Some(value));
    assert(seq![Some(value)].last() == Some(value));
}

/// The tags with their values, one pair for each value, in the order of the names.
pub open spec fn pairs_of(rows: Seq<(Seq<char>, Seq<Option<Seq<char>>>)>) -> Seq<
    (Seq<char>, Option<Seq<char>>),
>
    decreases rows.len(),
{
    if rows.len() == 0 {
        Seq::empty()
    } else {
        pairs_of(rows.drop_last()) + rows.last().1.map_values(
            |v: Option<Seq<char>>| (rows.last().0, v),
        )
    }
}

/// Row `i` holds the tag with that value.
pub open spec fn pair_in(
    rows: Seq<(Seq<char>, Seq<Option<Seq<char>>>)>,
    name: Seq<char>,
    value: Option<Seq<char>>,
    i: int,
) -> bool {
    0 <= i < rows.len() && rows[i].0 == name && rows[i].1.contains(value)
}

proof fn lemma_pairs(
    rows: Seq<(Seq<char>, Seq<Option<Seq<char>>>)>,
    name: Seq<char>,
    value: Option<Seq<char>>,
)
    ensures
        pairs_of(rows).contains((name, value)) <==> exists|i: int| pair_in(rows, name, value, i),
    decreases rows.len(),
{
    if rows.len() > 0 {
        let rest = rows.drop_last();
        let n = rows.len() - 1;
        let before = pairs_of(rest);
        let here = rows.last().1.map_values(|v: Option<Seq<char>>| (rows.last().0, v));
        let all = pairs_of(rows);
        assert(all == before + here);
        lemma_pairs(rest, name, value);
        if before.contains((name, value)) {
            let i = choose|i: int| pair_in(rest, name, value, i);
            assert(pair_in(rows, name, value, i));
            let j = choose|j: int| 0 <= j < before.len() && before[j] == (name, value);
            assert(all[j] == (name, value));
        }
        if pair_in(rows, name, value, n) {
            let j = choose|j: int| 0 <= j < rows[n].1.len() && rows[n].1[j] == value;
            assert(here[j] == (name, value));
            assert(all[before.len() + j] == (name, value));
        }
        if all.contains((name, value)) && !before.contains((name, value)) {
            let j = choose|j: int| 0 <= j < all.len() && all[j] == (name, value);
            if j < before.len() {
                assert(before[j] == (name, value));
            }
            assert(here[j - before.len()] == (name, value));
            assert(rows[n].1[j - before.len()] == value);
            assert(pair_in(rows, name, value, n));
        }
        if exists|i: int| pair_in(rows, name, value, i) {
            let i = choose|i: int| pair_in(rows, name, value, i);
            if i < n {
                assert(pair_in(rest, name, value, i));
            }
        }
    }
}

/// The pairs of tags are exactly the values that the tags have.
pub proof fn law_pairs_are_the_values(
    rows: Seq<(Seq<char>, Seq<Option<Seq<char>>>)>,
    name: Seq<char>,
    value: Option<Seq<char>>,
)
    requires
        ascending(rows),
    ensures
        pairs_of(rows).contains((name, value)) <==> map_of(rows).contains_key(name) && map_of(
            rows,
        )[name].contains(value),
{
    lemma_rows(rows);
    lemma_pairs(rows, name, value);
    if exists|i: int| pair_in(rows, name, value, i) {
        let i = choose|i: int| pair_in(rows, name, value, i);
        assert(rows[i].0 == name);
    }
    if map_of(rows).contains_key(name) && map_of(rows)[name].contains(value) {
        let i = choose|i: int| row_has(rows, name, i);
        assert(rows[i].0 == name);
        assert(pair_in(rows, name, value, i));
    }
}

/// A pair of a tag and a value, read as characters.
pub open spec fn pair_view(p: (String, Option<String>)) -> (Seq<char>, Option<Seq<char>>) {
    (p.0@, opt_text(p.1))
}

impl View for MetricTags {
    type V = TagMap;

    closed spec fn view(&self) -> TagMap {
        self.values@.map_values(|v: Vec<Option<String>>| value_views(v@))
    }
}

fn copy_values(v: &Vec<Option<String>>) -> (r: Vec<Option<String>>)
    ensures
        value_views(r@) == value_views(v@),
{
    let mut r: Vec<Option<String>> = Vec::new();
    let n: usize = v.len();
    let mut i: usize = 0;
    while i < n
        invariant
            n == v@.len(),
            i <= n,
            r@.len() == i,
            forall|j: int| 0 <= j < i ==> opt_text(#[trigger] r@[j]) == opt_text(v@[j]),
        decreases n - i,
    {
        r.push(copy_opt(&v[i]));
        i = i + 1;
    }
    assert(value_views(r@) =~= value_views(v@));
    r
}

impl MetricTags {
    /// The tags in the order of their names.
    pub closed spec fn rows(&self) -> Seq<(Seq<char>, Seq<Option<Seq<char>>>)> {
        read_rows(self.values.rows(), |v: Vec<Option<String>>| value_views(v@))
    }

    /// The rows are the tags, in the order of their names.
    pub open spec fn rows_fit(&self) -> bool {
        ascending(self.rows()) && map_of(self.rows()) == self@
    }

    /// No tags.
    pub fn new() -> (r: MetricTags)
        ensures
            r@ == Map::<Seq<char>, Seq<Option<Seq<char>>>>::empty(),
            r.rows() == Seq::<(Seq<char>, Seq<Option<Seq<char>>>)>::empty(),
    {
        let r = MetricTags { values: TextMap::new() };
        assert(r.rows() =~= Seq::<(Seq<char>, Seq<Option<Seq<char>>>)>::empty());
        assert(r@ =~= Map::<Seq<char>, Seq<Option<Seq<char>>>>::empty());
        r
    }

    /// The value of the tag `name`.
    pub fn get(&self, name: &str) -> (r: Option<String>)
        ensures
            opt_text(r) == value_of(self@, name@),
    {
        match self.values.get(name) {
            Some(v) => {
                let ghost all = value_views(v@);
                let mut i: usize = v.len();
                assert(all.take(i as int) =~= all);
                while i > 0
                    invariant
                        i <= v@.len(),
                        all == value_views(v@),
                        value_of(self@, name@) == last_value(all.take(i as int)),
                    decreases i,
                {
                    assert(all.take(i as int).last() == opt_text(v@[i - 1]));
                    assert(all.take(i as int).drop_last() =~= all.take(i - 1));
                    i = i - 1;
                    if let Some(s) = &v[i] {
                        return Some(copy(s.as_str()));
                    }
                }
                assert(all.take(0) =~= Seq::<Option<Seq<char>>>::empty());
                None
            },
            None => None,
        }
    }

    /// Makes `value` the last of the values of the tag `name`.
    pub fn insert(&mut self, name: String, value: String)
        ensures
            final(self)@ == with_value(old(self)@, name@, Some(value@)),
    {
        let ghost was = self.values@;
        let ghost n = name@;
        let value = Some(value);
        let ghost x = opt_text(value);
        let mut kept: Vec<Option<String>> = Vec::new();
        let ghost had = values_of(self@, n);
        assert(value_views(kept@) =~= Seq::<Option<Seq<char>>>::empty());
        if let Some(v) = self.values.get(name.as_str()) {
            let m: usize = v.len();
            let mut i: usize = 0;
            assert(had.take(0) =~= Seq::<Option<Seq<char>>>::empty());
            while i < m
                invariant
                    m == v@.len(),
                    i <= m,
                    had == value_views(v@),
                    x == opt_text(value),
                    value_views(kept@) == without_value(had.take(i as int), x),
                decreases m - i,
            {
                assert(had.take(i + 1).drop_last() =~= had.take(i as int));
                assert(had.take(i + 1).last() == opt_text(v@[i as int]));
                if !same_opt(&v[i], &value) {
                    let ghost before = kept@;
                    kept.push(copy_opt(&v[i]));
                    assert(value_views(kept@) =~= value_views(before).push(
                        opt_text(v@[i as int]),
                    ));
                }
                i = i + 1;
            }
            assert(had.take(m as int) =~= had);
        }
        let ghost before = kept@;
        kept.push(value);
        assert(value_views(kept@) =~= value_views(before).push(x));
        let ghost kv = value_views(kept@);
        let _ = self.values.insert(name, kept);
        assert(self@ =~= was.map_values(|v: Vec<Option<String>>| value_views(v@)).insert(n, kv));
    }

    /// Makes `value` the only value of the tag `name`, and returns the value that it
    /// had.
    pub fn replace(&mut self, name: String, value: String) -> (r: Option<String>)
        ensures
            final(self)@ == with_only(old(self)@, name@, value@),
            opt_text(r) == value_of(old(self)@, name@),
    {
        let ghost was = self.values@;
        let ghost n = name@;
        let ghost v = value@;
        let had = self.get(name.as_str());
        let mut only: Vec<Option<String>> = Vec::new();
        only.push(Some(value));
        assert(value_views(only@) =~= seq![Some(v)]);
        let _ = self.values.insert(name, only);
        assert(self@ =~= was.map_values(|v: Vec<Option<String>>| value_views(v@)).insert(
            n,
            seq![Some(v)],
        ));
        had
    }

    /// The tags with their values, one pair for each value, in the order of the names.
    pub fn iter_all(&self) -> (r: Vec<(String, Option<String>)>)
        ensures
            r@.map_values(|p: (String, Option<String>)| pair_view(p)) == pairs_of(self.rows()),
            self.rows_fit(),
            forall|k: Seq<char>, v: Option<Seq<char>>|
                #[trigger] pairs_of(self.rows()).contains((k, v)) <==> self@.contains_key(k)
                    && self@[k].contains(v),
    {
        let ghost f = |p: (String, Option<String>)| pair_view(p);
        let mut r: Vec<(String, Option<String>)> = Vec::new();
        let n: usize = self.values.len();
        let ghost rows = self.rows();
        let mut i: usize = 0;
        assert(r@.map_values(f) =~= Seq::<(Seq<char>, Option<Seq<char>>)>::empty());
        assert(rows.take(0) =~= Seq::<(Seq<char>, Seq<Option<Seq<char>>>)>::empty());
        while i < n
            invariant
                n == self.values.rows().len(),
                rows == self.rows(),
                i <= n,
                f == (|p: (String, Option<String>)| pair_view(p)),
                r@.map_values(f) == pairs_of(rows.take(i as int)),
            decreases n - i,
        {
            let key = self.values.key_at(i);
            let values = self.values.value_at(i);
            let m: usize = values.len();
            let mut j: usize = 0;
            let ghost before = r@.map_values(f);
            let ghost vs = value_views(values@).map_values(
                |v: Option<Seq<char>>| (key@, v),
            );
            assert(rows[i as int] == (key@, value_views(values@)));
            assert(before + vs.take(0) =~= before);
            while j < m
                invariant
                    m == values@.len(),
                    j <= m,
                    f == (|p: (String, Option<String>)| pair_view(p)),
                    vs == value_views(values@).map_values(|v: Option<Seq<char>>| (key@, v)),
                    r@.map_values(f) == before + vs.take(j as int),
                decreases m - j,
            {
                let ghost was = r@;
                let p = (copy(key), copy_opt(&values[j]));
                let ghost pv = pair_view(p);
                r.push(p);
                assert(r@.map_values(f) =~= was.map_values(f).push(pv));
                assert(vs.take(j + 1) =~= vs.take(j as int).push(pv));
                assert(before + vs.take(j + 1) =~= (before + vs.take(j as int)).push(pv));
                j = j + 1;
            }
            assert(vs.take(m as int) =~= vs);
            assert(rows.take(i + 1).drop_last() =~= rows.take(i as int));
            assert(rows.take(i + 1).last() == rows[i as int]);
            i = i + 1;
        }
        assert(rows.take(n as int) =~= rows);
        proof {
            lemma_read_rows(self.values.rows(), |v: Vec<Option<String>>| value_views(v@));
            assert forall|k: Seq<char>, v: Option<Seq<char>>|
                #[trigger] pairs_of(self.rows()).contains((k, v)) <==> self@.contains_key(k)
                    && self@[k].contains(v) by {
                law_pairs_are_the_values(self.rows(), k, v);
            }
        }
        r
    }
}

impl Clone for MetricTags {
    fn clone(&self) -> (r: MetricTags)
        ensures
            r@ == self@,
            r.rows() == self.rows(),
    {
        let mut values: Vec<Vec<Option<String>>> = Vec::new();
        let n: usize = self.values.len();
        let mut i: usize = 0;
        while i < n
            invariant
                n == self.values.rows().len(),
                i <= n,
                values@.len() == i,
                forall|j: int|
                    0 <= j < i ==> value_views((#[trigger] values@[j])@) == value_views(
                        self.values.rows()[j].1@,
                    ),
            decreases n - i,
        {
            values.push(copy_values(self.values.value_at(i)));
            i = i + 1;
        }
        let ghost given = values@;
        let r = MetricTags { values: self.values.with_values(values) };
        proof {
            let a = r.values.rows();
            let b = self.values.rows();
            assert forall|j: int| 0 <= j < a.len() implies (#[trigger] a[j]).0 == b[j].0
                && value_views(a[j].1@) == value_views(b[j].1@) by {
                assert(a[j] == (b[j].0, given[j]));
            }
            lemma_same_reading(
                a,
                b,
                |v: Vec<Option<String>>| value_views(v@),
                |v: Vec<Option<String>>| value_views(v@),
            );
            assert(r.rows() =~= self.rows());
        }
        r
    }
}

// ---------------------------------------------------------------------------
// Metrics
// ---------------------------------------------------------------------------
/// How a metric's value relates to the one before.
#[derive(Clone, Copy, Debug, PartialEq, Eq, Structural)]
pub enum MetricKind {
    /// The value is added to the one before.
    Incremental,
    /// The value stands for itself.
    Absolute,
}

/// A metric's value, with readings of type `D`.
#[derive(Clone, Debug)]
pub enum MetricValue<D> {
    /// A count that only grows.
    Counter { value: D },
    /// A reading that goes up and down.
    Gauge { value: D },
    /// A reading that goes up and down in whole numbers.
    IntegerGauge { whole: i64 },
    /// Different texts.
    UniqueTexts { values: TextSet },
    /// Samples.
    Distribution { samples: Vec<D> },
    /// Samples counted in buckets.
    AggregatedHistogram { count: u64, sum: D },
    /// Samples counted by quantile.
    AggregatedSummary { count: u64, sum: D },
    /// A sketch of samples, with the text that shows it.
    Sketch { shown: String },
}

/// A metric.
#[derive(Debug)]
pub struct Metric<D> {
    /// The metric's name.
    pub name: String,
    /// How its value relates to the one before.
    pub kind: MetricKind,
    /// Its value.
    pub value: MetricValue<D>,
    /// When it was read.
    pub timestamp: Option<Timestamp>,
    /// Its tags.
    pub tags: MetricTags,
}

/// A metric, read as characters.
#[verifier::ext_equal]
pub struct MetricView<D> {
    pub name: Seq<char>,
    pub kind: MetricKind,
    pub value: MetricValue<D>,
    pub timestamp: Option<Timestamp>,
    pub tags: TagMap,
}

impl<D> View for Metric<D> {
    type V = MetricView<D>;

    open spec fn view(&self) -> MetricView<D> {
        MetricView {
            name: self.name@,
            kind: self.kind,
            value: self.value,
            timestamp: self.timestamp,
            tags: self.tags@,
        }
    }
}

/// Metrics, read as characters.
pub open spec fn metric_views<D>(v: Seq<Metric<D>>) -> Seq<MetricView<D>> {
    v.map_values(|m: Metric<D>| m@)
}

impl<D> Metric<D> {
    /// All but the tags is the same.
    pub open spec fn same_but_tags(&self, other: Metric<D>) -> bool {
        self.name == other.name && self.kind == other.kind && self.value == other.value
            && self.timestamp == other.timestamp
    }

    /// A metric without tags and without a timestamp.
    pub fn new(name: String, kind: MetricKind, value: MetricValue<D>) -> (r: Metric<D>)
        ensures
            r.name == name,
            r.kind == kind,
            r.value == value,
            r.timestamp is None,
            r.tags@ == Map::<Seq<char>, Seq<Option<Seq<char>>>>::empty(),
            r.tags.rows() == Seq::<(Seq<char>, Seq<Option<Seq<char>>>)>::empty(),
    {
        Metric { name, kind, value, timestamp: None, tags: MetricTags::new() }
    }

    /// The value of the tag `name`.
    pub fn tag_value(&self, name: &str) -> (r: Option<String>)
        ensures
            opt_text(r) == value_of(self.tags@, name@),
    {
        self.tags.get(name)
    }

    /// Makes `value` the only value of the tag `name`, and returns the value that it
    /// had.
    pub fn replace_tag(&mut self, name: String, value: String) -> (r: Option<String>)
        ensures
            final(self).tags@ == with_only(old(self).tags@, name@, value@),
            final(self).same_but_tags(*old(self)),
            opt_text(r) == value_of(old(self).tags@, name@),
    {
        self.tags.replace(name, value)
    }
}

// ---------------------------------------------------------------------------
// What is kept of values
// ---------------------------------------------------------------------------
/// Of several values the last one that is not absent is read.
pub proof fn law_last_present_value_is_read(v: Seq<Option<Seq<char>>>, i: int)
    ensures
        0 <= i < v.len() && v[i] is Some && (forall|j: int|
            i < j < v.len() ==> (#[trigger] v[j]) is None) ==> last_value(v) == v[i],
        (forall|j: int| 0 <= j < v.len() ==> (#[trigger] v[j]) is None) ==> last_value(v) is None,
    decreases v.len(),
{
    if v.len() > 0 {
        let rest = v.drop_last();
        assert(forall|j: int| 0 <= j < rest.len() ==> rest[j] == v[j]);
        assert(v.last() == v[v.len() - 1]);
        law_last_present_value_is_read(rest, i);
    }
}

proof fn lemma_without_is_filter(v: Seq<Option<Seq<char>>>, x: Option<Seq<char>>)
    ensures
        without_value(v, x) == v.filter(|y: Option<Seq<char>>| y != x),
    decreases v.len(),
{
    reveal(Seq::filter);
    if v.len() > 0 {
        lemma_without_is_filter(v.drop_last(), x);
    }
    assert(without_value(v, x) =~= v.filter(|y: Option<Seq<char>>| y != x));
}

/// A value that is given to a tag becomes its last one, and stands there once; the
/// other values keep their order, and no other tag is touched.
pub proof fn law_given_value_comes_last(
    tags: TagMap,
    name: Seq<char>,
    value: Option<Seq<char>>,
    other: Seq<char>,
)
    ensures
        ({
            let after = with_value(tags, name, value);
            &&& after.contains_key(name)
            &&& tags.contains_key(name) ==> after[name] == tags[name].filter(
                |y: Option<Seq<char>>| y != value,
            ).push(value)
            &&& !tags.contains_key(name) ==> after[name] == seq![value]
            &&& other != name ==> after.contains_key(other) == tags.contains_key(other)
            &&& other != name && tags.contains_key(other) ==> after[other] == tags[other]
        }),
{
    lemma_without_is_filter(values_of(tags, name), value);
    if !tags.contains_key(name) {
        assert(with_value(tags, name, value)[name] =~= seq![value]);
    }
}

/// The pairs of tags come in the order of the tags, and for each tag in the order of
/// its values.
pub proof fn law_pairs_come_in_order(
    before: Seq<(Seq<char>, Seq<Option<Seq<char>>>)>,
    name: Seq<char>,
    values: Seq<Option<Seq<char>>>,
    i: int,
)
    ensures
        ({
            let had = pairs_of(before);
            let has = pairs_of(before.push((name, values)));
            &&& has.len() == had.len() + values.len()
            &&& has.take(had.len() as int) == had
            &&& 0 <= i < values.len() ==> has[had.len() + i] == (name, values[i])
        }),
        pairs_of(Seq::<(Seq<char>, Seq<Option<Seq<char>>>)>::empty()).len() == 0,
{
    let rows = before.push((name, values));
    assert(rows.drop_last() =~= before);
    assert(rows.last() == (name, values));
    assert(pairs_of(rows).take(pairs_of(before).len() as int) =~= pairs_of(before));
}

/// A metric is read field by field.
pub proof fn law_metric_fields_are_read<D>(m: Metric<D>)
    ensures
        m@.name == m.name@ && m@.kind == m.kind && m@.value == m.value,
        m@.timestamp == m.timestamp && m@.tags == m.tags@,
{
}

/// Where only the tags differ, all else is the same.
pub proof fn law_only_tags_differ<D>(m: Metric<D>, other: Metric<D>)
    ensures
        m.same_but_tags(other) <==> m.name == other.name && m.kind == other.kind && m.value
            == other.value && m.timestamp == other.timestamp,
{
}

/// Rows that fit the tags tell of each tag once, with its values, and of nothing else.
pub proof fn law_rows_tell_the_tags(tags: MetricTags, name: Seq<char>, i: int)
    requires
        tags.rows_fit(),
    ensures
        0 <= i < tags.rows().len() ==> tags@.contains_key(tags.rows()[i].0)
            && tags@[tags.rows()[i].0] == tags.rows()[i].1,
        tags@.contains_key(name) <==> exists|j: int|
            0 <= j < tags.rows().len() && (#[trigger] tags.rows()[j]).0 == name,
{
    let rows = tags.rows();
    lemma_rows(rows);
    if tags@.contains_key(name) {
        let j = choose|j: int| row_has(rows, name, j);
        assert(rows[j].0 == name);
    }
    if exists|j: int| 0 <= j < rows.len() && (#[trigger] rows[j]).0 == name {
        let j = choose|j: int| 0 <= j < rows.len() && (#[trigger] rows[j]).0 == name;
        assert(row_has(rows, name, j));
    }
}

} // verus!

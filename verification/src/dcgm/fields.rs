//! The fields that are read, and how they are configured.
use vstd::prelude::*;

use crate::schema::SourceOutput;
use crate::table::{ascending, lemma_rows, map_of, row_has, TextMap};
use crate::text::{copy, join2, texts};

verus! {

// ---------------------------------------------------------------------------
// Fields
// ---------------------------------------------------------------------------
/// The field that holds the name of a GPU's model.
pub const DCGM_FI_DEV_NAME: u16 = 50;

/// The field that holds a GPU's unique identifier.
pub const DCGM_FI_DEV_UUID: u16 = 54;

/// The type of fields that hold bytes.
pub const DCGM_FT_BINARY: u16 = 98;

/// The type of fields that hold readings.
pub const DCGM_FT_DOUBLE: u16 = 100;

/// The type of fields that hold whole numbers.
pub const DCGM_FT_INT64: u16 = 105;

/// The type of fields that hold texts.
pub const DCGM_FT_STRING: u16 = 115;

/// The type of fields that hold moments.
pub const DCGM_FT_TIMESTAMP: u16 = 116;

/// What a field holds.
#[derive(Clone, Copy, Debug, PartialEq, Eq, Structural)]
pub enum FieldType {
    /// A text.
    Text,
    /// A reading.
    Double,
    /// A whole number.
    Int64,
    /// A moment.
    Timestamp,
    /// Bytes.
    Binary,
    /// Something else.
    Unknown(u16),
}

/// What fields of that type hold.
pub open spec fn field_type(v: u16) -> FieldType {
    if v == DCGM_FT_STRING {
        FieldType::Text
    } else if v == DCGM_FT_DOUBLE {
        FieldType::Double
    } else if v == DCGM_FT_INT64 {
        FieldType::Int64
    } else if v == DCGM_FT_TIMESTAMP {
        FieldType::Timestamp
    } else if v == DCGM_FT_BINARY {
        FieldType::Binary
    } else {
        FieldType::Unknown(v)
    }
}

impl From<u16> for FieldType {
    fn from(v: u16) -> (r: FieldType) {
        if v == DCGM_FT_STRING {
            FieldType::Text
        } else if v == DCGM_FT_DOUBLE {
            FieldType::Double
        } else if v == DCGM_FT_INT64 {
            FieldType::Int64
        } else if v == DCGM_FT_TIMESTAMP {
            FieldType::Timestamp
        } else if v == DCGM_FT_BINARY {
            FieldType::Binary
        } else {
            FieldType::Unknown(v)
        }
    }
}

impl vstd::std_specs::convert::FromSpecImpl<u16> for FieldType {
    open spec fn obeys_from_spec() -> bool {
        true
    }

    open spec fn from_spec(v: u16) -> FieldType {
        field_type(v)
    }
}

/// The names of fields.
#[derive(Debug)]
pub struct FieldTable {
    /// The number of the field of each name.
    pub name_to_id: TextMap<u16>,
    /// The name of the field of each number.
    pub id_to_name: Vec<(u16, String)>,
}

/// The first name of the field of that number.
pub open spec fn name_in(rows: Seq<(u16, String)>, id: u16) -> Option<Seq<char>>
    decreases rows.len(),
{
    if rows.len() == 0 {
        None
    } else if rows.first().0 == id {
        Some(rows.first().1@)
    } else {
        name_in(rows.drop_first(), id)
    }
}

/// The number of the field of that name.
pub open spec fn id_of(t: FieldTable, name: Seq<char>) -> Option<u16> {
    if t.name_to_id@.contains_key(name) {
        Some(t.name_to_id@[name])
    } else {
        None
    }
}

/// The name of the field of that number.
pub open spec fn name_of(t: FieldTable, id: u16) -> Option<Seq<char>> {
    name_in(t.id_to_name@, id)
}

/// The number of the field of that name.
pub fn resolve_field_name(table: &FieldTable, name: &str) -> (r: Option<u16>)
    ensures
        r == id_of(*table, name@),
{
    match table.name_to_id.get(name) {
        Some(id) => Some(*id),
        None => None,
    }
}

/// The name of the field of that number.
pub fn resolve_field_id_to_name(table: &FieldTable, field_id: u16) -> (r: Option<&str>)
    ensures
        match (r, name_of(*table, field_id)) {
            (Some(s), Some(w)) => s@ == w,
            (None, None) => true,
            _ => false,
        },
{
    let n: usize = table.id_to_name.len();
    let ghost all = table.id_to_name@;
    let mut i: usize = 0;
    assert(all.skip(0) =~= all);
    while i < n
        invariant
            n == all.len(),
            all == table.id_to_name@,
            i <= n,
            name_of(*table, field_id) == name_in(all.skip(i as int), field_id),
        decreases n - i,
    {
        assert(all.skip(i as int).first() == all[i as int]);
        assert(all.skip(i as int).drop_first() =~= all.skip(i + 1));
        if table.id_to_name[i].0 == field_id {
            return Some(table.id_to_name[i].1.as_str());
        }
        i = i + 1;
    }
    None
}

// ---------------------------------------------------------------------------
// Groups
// ---------------------------------------------------------------------------
/// Fields that are read together.
#[derive(Clone, Debug)]
pub struct DcgmMetricGroup {
    /// How often they are read, in seconds.
    pub scrape_interval_secs: u64,
    /// Their names.
    pub fields: Vec<String>,
}

impl Default for DcgmMetricGroup {
    fn default() -> (r: DcgmMetricGroup)
        ensures
            r.scrape_interval_secs == 0,
            r.fields@.len() == 0,
    {
        DcgmMetricGroup { scrape_interval_secs: 0, fields: Vec::new() }
    }
}

/// The groups, by name.
#[derive(Debug)]
pub struct DcgmMetricsConfig {
    /// The groups.
    pub groups: TextMap<DcgmMetricGroup>,
}

impl Default for DcgmMetricsConfig {
    fn default() -> (r: DcgmMetricsConfig)
        ensures
            r.groups@ == Map::<Seq<char>, DcgmMetricGroup>::empty(),
    {
        DcgmMetricsConfig { groups: TextMap::new() }
    }
}

/// The numbers of fields, or the first name that is not known.
pub open spec fn ids_of(t: FieldTable, names: Seq<Seq<char>>) -> Result<Seq<u16>, Seq<char>>
    decreases names.len(),
{
    if names.len() == 0 {
        Ok(Seq::empty())
    } else {
        match ids_of(t, names.drop_last()) {
            Err(e) => Err(e),
            Ok(before) => match id_of(t, names.last()) {
                Some(id) => Ok(before.push(id)),
                None => Err(names.last()),
            },
        }
    }
}

/// The first name that is not known in the first `n` groups, in the order of their
/// names.
pub open spec fn first_unknown(
    t: FieldTable,
    rows: Seq<(Seq<char>, DcgmMetricGroup)>,
    n: int,
) -> Option<Seq<char>>
    decreases n,
{
    if n <= 0 {
        None
    } else {
        match first_unknown(t, rows, n - 1) {
            Some(e) => Some(e),
            None => match ids_of(t, texts(rows[n - 1].1.fields@)) {
                Ok(_) => None,
                Err(e) => Some(e),
            },
        }
    }
}

proof fn lemma_ids_error(t: FieldTable, names: Seq<Seq<char>>, k: int)
    requires
        0 <= k <= names.len(),
        ids_of(t, names.take(k)) is Err,
    ensures
        ids_of(t, names) == ids_of(t, names.take(k)),
    decreases names.len() - k,
{
    if k == names.len() {
        assert(names.take(k) =~= names);
    } else {
        assert(names.take(k + 1).drop_last() =~= names.take(k));
        lemma_ids_error(t, names, k + 1);
    }
}

fn resolve_fields(table: &FieldTable, fields: &Vec<String>) -> (r: Result<Vec<u16>, String>)
    ensures
        match (r, ids_of(*table, texts(fields@))) {
            (Ok(v), Ok(w)) => v@ == w,
            (Err(e), Err(name)) => e@ == name,
            _ => false,
        },
{
    let mut ids: Vec<u16> = Vec::new();
    let n: usize = fields.len();
    let ghost names = texts(fields@);
    let mut i: usize = 0;
    assert(names.take(0) =~= Seq::<Seq<char>>::empty());
    assert(ids@ =~= Seq::<u16>::empty());
    while i < n
        invariant
            n == fields@.len(),
            i <= n,
            names == texts(fields@),
            ids_of(*table, names.take(i as int)) == Ok::<Seq<u16>, Seq<char>>(ids@),
        decreases n - i,
    {
        assert(names.take(i + 1).drop_last() =~= names.take(i as int));
        assert(names.take(i + 1).last() == fields@[i as int]@);
        match resolve_field_name(table, fields[i].as_str()) {
            Some(id) => ids.push(id),
            None => {
                proof {
                    lemma_ids_error(*table, names, i + 1);
                }
                return Err(copy(fields[i].as_str()));
            },
        }
        i = i + 1;
    }
    assert(names.take(n as int) =~= names);
    Ok(ids)
}

proof fn lemma_unknown_stays(
    t: FieldTable,
    rows: Seq<(Seq<char>, DcgmMetricGroup)>,
    k: int,
    n: int,
)
    requires
        0 <= k <= n,
        first_unknown(t, rows, k) is Some,
    ensures
        first_unknown(t, rows, n) == first_unknown(t, rows, k),
    decreases n - k,
{
    if k < n {
        lemma_unknown_stays(t, rows, k + 1, n);
    }
}

/// Each group has its fields' numbers, as `f` completes them.
pub open spec fn all_resolved(
    t: FieldTable,
    groups: Map<Seq<char>, DcgmMetricGroup>,
    m: Map<Seq<char>, Vec<u16>>,
    f: spec_fn(Seq<u16>) -> Seq<u16>,
) -> bool {
    &&& m.dom() == groups.dom()
    &&& forall|k: Seq<char>| #[trigger]
        m.contains_key(k) ==> (ids_of(t, texts(groups[k].fields@)) matches Ok(ids) && m[k]@ == f(ids))
}

proof fn lemma_all_resolved(
    t: FieldTable,
    groups: Seq<(Seq<char>, DcgmMetricGroup)>,
    m: Seq<(Seq<char>, Vec<u16>)>,
    f: spec_fn(Seq<u16>) -> Seq<u16>,
)
    requires
        ascending(groups),
        ascending(m),
        m.len() == groups.len(),
        forall|i: int|
            #![trigger m[i]]
            0 <= i < m.len() ==> m[i].0 == groups[i].0 && (ids_of(
                t,
                texts(groups[i].1.fields@),
            ) matches Ok(ids) && m[i].1@ == f(ids)),
    ensures
        all_resolved(t, map_of(groups), map_of(m), f),
{
    lemma_rows(groups);
    lemma_rows(m);
    assert forall|k: Seq<char>| #[trigger] map_of(m).contains_key(k) implies map_of(
        groups,
    ).contains_key(k) && (ids_of(t, texts(map_of(groups)[k].fields@)) matches Ok(ids) && map_of(
        m,
    )[k]@ == f(ids)) by {
        let i = choose|i: int| row_has(m, k, i);
        assert(m[i].0 == k);
        assert(groups[i].0 == k);
    }
    assert forall|k: Seq<char>| #[trigger] map_of(groups).contains_key(k) implies map_of(
        m,
    ).contains_key(k) by {
        let i = choose|i: int| row_has(groups, k, i);
        assert(m[i].0 == k);
    }
    assert(map_of(m).dom() =~= map_of(groups).dom());
}

/// The numbers of the fields of each group; or the first name that is not known, in
/// the order of the groups' names.
pub fn resolve_all_fields(table: &FieldTable, groups: &TextMap<DcgmMetricGroup>) -> (r: Result<
    TextMap<Vec<u16>>,
    String,
>)
    ensures
        ascending(groups.rows()),
        match r {
            Ok(m) => {
                &&& first_unknown(*table, groups.rows(), groups.rows().len() as int) is None
                &&& all_resolved(*table, groups@, m@, |ids: Seq<u16>| ids)
                &&& m.rows().len() == groups.rows().len()
                &&& forall|i: int|
                    #![trigger m.rows()[i]]
                    0 <= i < m.rows().len() ==> m.rows()[i].0 == groups.rows()[i].0 && ids_of(
                        *table,
                        texts(groups.rows()[i].1.fields@),
                    ) == Ok::<Seq<u16>, Seq<char>>(m.rows()[i].1@)
            },
            Err(e) => first_unknown(*table, groups.rows(), groups.rows().len() as int) matches Some(
                name,
            ) && e@ == "Unknown DCGM field name: "@ + name,
        },
{
    let mut all: Vec<Vec<u16>> = Vec::new();
    let n: usize = groups.len();
    let ghost rows = groups.rows();
    let mut i: usize = 0;
    while i < n
        invariant
            n == rows.len(),
            rows == groups.rows(),
            ascending(rows),
            i <= n,
            all@.len() == i,
            first_unknown(*table, rows, i as int) is None,
            forall|j: int|
                0 <= j < i ==> ids_of(*table, texts(rows[j].1.fields@)) == Ok::<
                    Seq<u16>,
                    Seq<char>,
                >((#[trigger] all@[j])@),
        decreases n - i,
    {
        match resolve_fields(table, &groups.value_at(i).fields) {
            Ok(ids) => all.push(ids),
            Err(name) => {
                proof {
                    lemma_unknown_stays(*table, rows, i + 1, n as int);
                }
                return Err(join2("Unknown DCGM field name: ", name.as_str()));
            },
        }
        i = i + 1;
    }
    let m = groups.with_values(all);
    proof {
        lemma_all_resolved(*table, rows, m.rows(), |ids: Seq<u16>| ids);
    }
    Ok(m)
}

/// Fields, and among them those that tell which GPU it is.
pub open spec fn with_identity(ids: Seq<u16>) -> Seq<u16> {
    let a = if ids.contains(DCGM_FI_DEV_UUID) {
        ids
    } else {
        ids.push(DCGM_FI_DEV_UUID)
    };
    if a.contains(DCGM_FI_DEV_NAME) {
        a
    } else {
        a.push(DCGM_FI_DEV_NAME)
    }
}

fn has_id(ids: &Vec<u16>, id: u16) -> (r: bool)
    ensures
        r == ids@.contains(id),
{
    let mut i: usize = 0;
    while i < ids.len()
        invariant
            i <= ids@.len(),
            forall|j: int| 0 <= j < i ==> ids@[j] != id,
        decreases ids@.len() - i,
    {
        if ids[i] == id {
            return true;
        }
        i = i + 1;
    }
    false
}

/// Adds the fields that tell which GPU it is, where they are not there.
pub fn add_identity_fields(ids: &Vec<u16>) -> (r: Vec<u16>)
    ensures
        r@ == with_identity(ids@),
{
    let mut r: Vec<u16> = Vec::new();
    let n: usize = ids.len();
    let mut i: usize = 0;
    while i < n
        invariant
            n == ids@.len(),
            i <= n,
            r@ == ids@.take(i as int),
        decreases n - i,
    {
        r.push(ids[i]);
        assert(ids@.take(i + 1) =~= ids@.take(i as int).push(ids@[i as int]));
        i = i + 1;
    }
    assert(ids@.take(n as int) =~= ids@);
    if !has_id(&r, DCGM_FI_DEV_UUID) {
        r.push(DCGM_FI_DEV_UUID);
    }
    if !has_id(&r, DCGM_FI_DEV_NAME) {
        r.push(DCGM_FI_DEV_NAME);
    }
    r
}

impl DcgmMetricsConfig {
    /// The numbers of the fields that are read for each group, with those that tell
    /// which GPU it is; or why a name is not known.
    pub fn field_groups(&self, table: &FieldTable) -> (r: Result<TextMap<Vec<u16>>, String>)
        ensures
            ascending(self.groups.rows()),
            match r {
                Ok(m) => {
                    &&& first_unknown(
                        *table,
                        self.groups.rows(),
                        self.groups.rows().len() as int,
                    ) is None
                    &&& all_resolved(
                        *table,
                        self.groups@,
                        m@,
                        |ids: Seq<u16>| with_identity(ids),
                    )
                    &&& m.rows().len() == self.groups.rows().len()
                    &&& forall|i: int|
                        #![trigger m.rows()[i]]
                        0 <= i < m.rows().len() ==> m.rows()[i].0 == self.groups.rows()[i].0
                            && ids_of(*table, texts(self.groups.rows()[i].1.fields@)) is Ok
                            && m.rows()[i].1@ == with_identity(
                            ids_of(*table, texts(self.groups.rows()[i].1.fields@))->Ok_0,
                        )
                },
                Err(e) => first_unknown(
                    *table,
                    self.groups.rows(),
                    self.groups.rows().len() as int,
                ) matches Some(name) && e@ == "Unknown DCGM field name: "@ + name,
            },
    {
        let found = match resolve_all_fields(table, &self.groups) {
            Ok(m) => m,
            Err(e) => {
                return Err(e);
            },
        };
        let mut all: Vec<Vec<u16>> = Vec::new();
        let n: usize = found.len();
        let ghost rows = found.rows();
        let mut i: usize = 0;
        while i < n
            invariant
                n == rows.len(),
                rows == found.rows(),
                i <= n,
                all@.len() == i,
                forall|j: int|
                    0 <= j < i ==> (#[trigger] all@[j])@ == with_identity(rows[j].1@),
            decreases n - i,
        {
            all.push(add_identity_fields(found.value_at(i)));
            i = i + 1;
        }
        let m = found.with_values(all);
        proof {
            lemma_all_resolved(
                *table,
                self.groups.rows(),
                m.rows(),
                |ids: Seq<u16>| with_identity(ids),
            );
        }
        Ok(m)
    }

    /// What the source puts out.
    pub fn outputs(&self) -> (r: Vec<SourceOutput>)
        ensures
            r@.len() == 1,
            r@[0].data_type is Metric,
    {
        let mut r: Vec<SourceOutput> = Vec::new();
        r.push(SourceOutput::new_metrics());
        r
    }

    /// Whether delivery is confirmed: it is not.
    pub fn can_acknowledge(&self) -> (r: bool)
        ensures
            !r,
    {
        false
    }
}

/// The name under which the fields of a group are registered.
pub fn field_group_name(group_name: &str) -> (r: String)
    ensures
        r@ == group_name@ + "_field_group"@,
{
    join2(group_name, "_field_group")
}

/// Every group reads the identifier and the model of each GPU, besides its own
/// fields, which keep their places.
pub proof fn law_identity_is_always_read(ids: Seq<u16>)
    ensures
        with_identity(ids).contains(DCGM_FI_DEV_UUID),
        with_identity(ids).contains(DCGM_FI_DEV_NAME),
        ids.is_prefix_of(with_identity(ids)),
        with_identity(ids).len() <= ids.len() + 2,
        with_identity(with_identity(ids)) == with_identity(ids),
{
    let a = if ids.contains(DCGM_FI_DEV_UUID) {
        ids
    } else {
        ids.push(DCGM_FI_DEV_UUID)
    };
    if !ids.contains(DCGM_FI_DEV_UUID) {
        assert(a[a.len() - 1] == DCGM_FI_DEV_UUID);
    }
    assert(a.contains(DCGM_FI_DEV_UUID));
    let b = with_identity(ids);
    if !a.contains(DCGM_FI_DEV_NAME) {
        assert(b[b.len() - 1] == DCGM_FI_DEV_NAME);
        let k = choose|k: int| 0 <= k < a.len() && a[k] == DCGM_FI_DEV_UUID;
        assert(b[k] == DCGM_FI_DEV_UUID);
    }
    assert(ids =~= b.take(ids.len() as int));
}

/// The name of a field is the one that stands first with the field's number.
pub proof fn law_first_name_counts(rows: Seq<(u16, String)>, id: u16, i: int)
    ensures
        0 <= i < rows.len() && rows[i].0 == id && (forall|j: int|
            0 <= j < i ==> (#[trigger] rows[j]).0 != id) ==> name_in(rows, id) == Some(rows[i].1@),
        (forall|j: int| 0 <= j < rows.len() ==> (#[trigger] rows[j]).0 != id) ==> name_in(
            rows,
            id,
        ) is None,
    decreases rows.len(),
{
    if rows.len() > 0 {
        let rest = rows.drop_first();
        assert(forall|j: int| 0 <= j < rest.len() ==> rest[j] == rows[j + 1]);
        assert(rows.first() == rows[0]);
        law_first_name_counts(rest, id, i - 1);
        if 0 < i < rows.len() && (forall|j: int| 0 <= j < i ==> (#[trigger] rows[j]).0 != id) {
            assert(forall|j: int| 0 <= j < i - 1 ==> (#[trigger] rest[j]).0 != id);
        }
    }
}

/// Where every name is known, the numbers are those of the names, one for each and in
/// their order; else the error is the first name that is not known.
pub proof fn law_names_are_resolved_in_order(t: FieldTable, names: Seq<Seq<char>>)
    ensures
        match ids_of(t, names) {
            Ok(ids) => {
                &&& ids.len() == names.len()
                &&& forall|i: int|
                    #![trigger names[i]]
                    0 <= i < names.len() ==> t.name_to_id@.contains_key(names[i])
                        && t.name_to_id@[names[i]] == ids[i]
            },
            Err(e) => exists|i: int|
                {
                    &&& 0 <= i < names.len()
                    &&& e == #[trigger] names[i]
                    &&& !t.name_to_id@.contains_key(names[i])
                    &&& forall|j: int|
                        0 <= j < i ==> t.name_to_id@.contains_key(#[trigger] names[j])
                },
        },
    decreases names.len(),
{
    if names.len() > 0 {
        let rest = names.drop_last();
        let n = names.len() - 1;
        law_names_are_resolved_in_order(t, rest);
        assert(forall|j: int| 0 <= j < rest.len() ==> rest[j] == names[j]);
        match ids_of(t, rest) {
            Ok(ids) => {
                assert forall|i: int|
                    #![trigger names[i]]
                    0 <= i < n implies t.name_to_id@.contains_key(names[i])
                    && t.name_to_id@[names[i]] == ids[i] by {
                    assert(rest[i] == names[i]);
                }
                assert(names.last() == names[n]);
            },
            Err(e) => {
                let i = choose|i: int|
                    {
                        &&& 0 <= i < rest.len()
                        &&& e == #[trigger] rest[i]
                        &&& !t.name_to_id@.contains_key(rest[i])
                        &&& forall|j: int|
                            0 <= j < i ==> t.name_to_id@.contains_key(#[trigger] rest[j])
                    };
                assert(names[i] == rest[i]);
                assert forall|j: int| 0 <= j < i implies t.name_to_id@.contains_key(
                    #[trigger] names[j],
                ) by {
                    assert(rest[j] == names[j]);
                }
            },
        }
    }
}

/// The type codes of fields are letters: `s` for a text, `d` for a reading, `i` for a
/// whole number, `t` for a moment and `b` for bytes.
pub proof fn law_type_codes_are_letters(v: u16)
    ensures
        field_type(v) is Text <==> v == 's' as u16,
        field_type(v) is Double <==> v == 'd' as u16,
        field_type(v) is Int64 <==> v == 'i' as u16,
        field_type(v) is Timestamp <==> v == 't' as u16,
        field_type(v) is Binary <==> v == 'b' as u16,
        field_type(v) matches FieldType::Unknown(w) ==> w == v,
{
}

/// A field that tells which GPU it is stands once among those that are read where the
/// group does not name it, and no other field is added.
pub proof fn law_only_identity_is_added(ids: Seq<u16>, id: u16)
    ensures
        with_identity(ids).contains(id) <==> ids.contains(id) || id == 54 || id == 50,
        ids.contains(54) && ids.contains(50) ==> with_identity(ids) == ids,
        !ids.contains(54) && !ids.contains(50) ==> with_identity(ids) == ids + seq![54u16, 50u16],
{
    let a = if ids.contains(DCGM_FI_DEV_UUID) {
        ids
    } else {
        ids.push(DCGM_FI_DEV_UUID)
    };
    lemma_pushed(ids, DCGM_FI_DEV_UUID, id);
    lemma_pushed(ids, DCGM_FI_DEV_UUID, DCGM_FI_DEV_NAME);
    lemma_pushed(a, DCGM_FI_DEV_NAME, id);
    assert(ids.push(54u16).push(50u16) =~= ids + seq![54u16, 50u16]);
}

proof fn lemma_pushed(ids: Seq<u16>, last: u16, id: u16)
    ensures
        ids.push(last).contains(id) <==> ids.contains(id) || id == last,
{
    let w = ids.push(last);
    if ids.contains(id) {
        let j = choose|j: int| 0 <= j < ids.len() && ids[j] == id;
        assert(w[j] == id);
    }
    if id == last {
        assert(w[w.len() - 1] == id);
    }
    if w.contains(id) {
        let j = choose|j: int| 0 <= j < w.len() && w[j] == id;
        if j < ids.len() {
            assert(ids[j] == id);
        }
    }
}

/// All names of all groups are known where no name is reported, and a name that is
/// reported is one that a group asks for and that is not known.
pub proof fn law_reported_name_is_not_known(
    t: FieldTable,
    rows: Seq<(Seq<char>, DcgmMetricGroup)>,
    n: int,
)
    requires
        0 <= n <= rows.len(),
    ensures
        match first_unknown(t, rows, n) {
            None => forall|g: int, i: int|
                #![trigger texts(rows[g].1.fields@)[i]]
                0 <= g < n && 0 <= i < rows[g].1.fields@.len() ==> t.name_to_id@.contains_key(
                    texts(rows[g].1.fields@)[i],
                ),
            Some(e) => !t.name_to_id@.contains_key(e) && exists|g: int|
                0 <= g < n && texts((#[trigger] rows[g]).1.fields@).contains(e),
        },
    decreases n,
{
    if n > 0 {
        law_reported_name_is_not_known(t, rows, n - 1);
        law_names_are_resolved_in_order(t, texts(rows[n - 1].1.fields@));
        match first_unknown(t, rows, n) {
            None => {
                assert forall|g: int, i: int|
                    #![trigger texts(rows[g].1.fields@)[i]]
                    0 <= g < n && 0 <= i < rows[g].1.fields@.len() implies t.name_to_id@.contains_key(
                    texts(rows[g].1.fields@)[i]) by {
                    assert(g < n - 1 || g == n - 1);
                }
            },
            Some(e) => {
                if first_unknown(t, rows, n - 1) is None {
                    assert(texts(rows[n - 1].1.fields@).contains(e));
                }
            },
        }
    }
}

/// Each group, and no other, has the numbers of its fields, in the order in which it
/// names them, and behind them those of the fields that tell which GPU it is where it
/// does not name them.
pub proof fn law_every_group_reads_its_fields(
    t: FieldTable,
    groups: Map<Seq<char>, DcgmMetricGroup>,
    m: Map<Seq<char>, Vec<u16>>,
    k: Seq<char>,
    i: int,
)
    requires
        all_resolved(t, groups, m, |ids: Seq<u16>| with_identity(ids)),
    ensures
        m.contains_key(k) <==> groups.contains_key(k),
        groups.contains_key(k) ==> {
            let names = texts(groups[k].fields@);
            &&& 0 <= i < names.len() ==> t.name_to_id@.contains_key(names[i]) && m[k]@[i]
                == t.name_to_id@[names[i]]
            &&& m[k]@.contains(54) && m[k]@.contains(50)
            &&& names.len() <= m[k]@.len() <= names.len() + 2
        },
{
    assert(m.dom().contains(k) <==> groups.dom().contains(k));
    if groups.contains_key(k) {
        let names = texts(groups[k].fields@);
        assert(m.contains_key(k));
        let ids = ids_of(t, names)->Ok_0;
        law_names_are_resolved_in_order(t, names);
        law_identity_is_always_read(ids);
        law_only_identity_is_added(ids, 54);
        law_only_identity_is_added(ids, 50);
        assert(ids =~= with_identity(ids).take(ids.len() as int));
        if 0 <= i < names.len() {
            assert(with_identity(ids).take(ids.len() as int)[i] == ids[i]);
        }
    }
}

} // verus!

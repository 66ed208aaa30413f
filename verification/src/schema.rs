//! What a source promises of the events that it puts out.
use vstd::prelude::*;

use crate::text::copy;

verus! {

/// What a field holds.
#[derive(Clone, Copy, Debug, PartialEq, Eq, Structural)]
pub enum FieldKind {
    /// A moment.
    Timestamp,
    /// A text.
    Bytes,
    /// A whole number.
    Integer,
}

/// One field of an event.
#[derive(Clone, Debug)]
pub struct SchemaField {
    /// The field's name.
    pub name: String,
    /// What it holds.
    pub kind: FieldKind,
    /// What it means.
    pub description: String,
}

/// One field of an event, read as characters.
pub type FieldView = (Seq<char>, FieldKind, Seq<char>);

impl View for SchemaField {
    type V = FieldView;

    open spec fn view(&self) -> FieldView {
        (self.name@, self.kind, self.description@)
    }
}

/// The kind of events that a source puts out.
#[derive(Clone, Copy, Debug, PartialEq, Eq, Structural)]
pub enum DataType {
    /// Log events.
    Log,
    /// Metrics.
    Metric,
}

/// What a source puts out.
#[derive(Clone, Debug)]
pub struct SourceOutput {
    /// The kind of events.
    pub data_type: DataType,
    /// The fields of the events.
    pub fields: Vec<SchemaField>,
}

impl SourceOutput {
    /// The fields, read as characters.
    pub open spec fn field_views(&self) -> Seq<FieldView> {
        field_views(self.fields@)
    }

    /// Log events with no promised fields.
    pub fn logs() -> (r: SourceOutput)
        ensures
            r.data_type is Log,
            r.field_views() == Seq::<FieldView>::empty(),
    {
        let fields: Vec<SchemaField> = Vec::new();
        assert(field_views(fields@) =~= Seq::<FieldView>::empty());
        SourceOutput { data_type: DataType::Log, fields }
    }

    /// Metrics.
    pub fn new_metrics() -> (r: SourceOutput)
        ensures
            r.data_type is Metric,
            r.field_views() == Seq::<FieldView>::empty(),
    {
        let fields: Vec<SchemaField> = Vec::new();
        assert(field_views(fields@) =~= Seq::<FieldView>::empty());
        SourceOutput { data_type: DataType::Metric, fields }
    }

    /// The same with one more field.
    pub fn with_event_field(self, name: &str, kind: FieldKind, description: &str) -> (r:
        SourceOutput)
        ensures
            r.data_type == self.data_type,
            r.field_views() == self.field_views().push((name@, kind, description@)),
    {
        let mut fields = self.fields;
        let f = SchemaField { name: copy(name), kind, description: copy(description) };
        let ghost was = fields@;
        let ghost fv = f@;
        fields.push(f);
        assert(field_views(fields@) =~= field_views(was).push(fv));
        SourceOutput { data_type: self.data_type, fields }
    }
}

/// Fields, read as characters.
pub open spec fn field_views(v: Seq<SchemaField>) -> Seq<FieldView> {
    v.map_values(|f: SchemaField| f@)
}

} // verus!

//! Log events.
use vstd::prelude::*;

use crate::clock::Timestamp;
use crate::table::TextMap;
use crate::text::copy;

verus! {

/// What a field of a log event holds.
#[derive(Clone, Debug)]
pub enum Value {
    /// A moment.
    Timestamp(Timestamp),
    /// A text.
    Text(String),
    /// A whole number.
    Integer(i64),
    /// Nothing.
    Null,
}

/// What a field holds, read as characters.
pub enum ValueView {
    Timestamp(Timestamp),
    Text(Seq<char>),
    Integer(i64),
    Null,
}

impl View for Value {
    type V = ValueView;

    open spec fn view(&self) -> ValueView {
        match *self {
            Value::Timestamp(t) => ValueView::Timestamp(t),
            Value::Text(s) => ValueView::Text(s@),
            Value::Integer(n) => ValueView::Integer(n),
            Value::Null => ValueView::Null,
        }
    }
}

/// The fields of a log event, read as characters.
pub type LogView = Map<Seq<char>, ValueView>;

/// A log event: named fields.
#[derive(Debug)]
pub struct LogEvent {
    fields: TextMap<Value>,
}

impl View for LogEvent {
    type V = LogView;

    closed spec fn view(&self) -> LogView {
        self.fields@.map_values(|v: Value| v@)
    }
}

/// Log events, read as characters.
pub open spec fn log_views(v: Seq<LogEvent>) -> Seq<LogView> {
    v.map_values(|l: LogEvent| l@)
}

/// Log events with one more.
pub proof fn lemma_log_views_push(v: Seq<LogEvent>, l: LogEvent)
    ensures
        log_views(v.push(l)) == log_views(v).push(l@),
{
    assert(log_views(v.push(l)) =~= log_views(v).push(l@));
}

impl LogEvent {
    /// An event without fields.
    pub fn new() -> (r: LogEvent)
        ensures
            r@ == Map::<Seq<char>, ValueView>::empty(),
    {
        let r = LogEvent { fields: TextMap::new() };
        assert(r@ =~= Map::<Seq<char>, ValueView>::empty());
        r
    }

    /// Gives the field `key` the value `value`.
    pub fn insert(&mut self, key: &str, value: Value)
        ensures
            final(self)@ == old(self)@.insert(key@, value@),
    {
        let ghost was = self.fields@;
        let ghost v = value@;
        let _ = self.fields.insert(copy(key), value);
        assert(self@ =~= was.map_values(|v: Value| v@).insert(key@, v));
    }

    /// Gives the field `key` a copy of the text `text`.
    pub fn insert_text(&mut self, key: &str, text: &str)
        ensures
            final(self)@ == old(self)@.insert(key@, ValueView::Text(text@)),
    {
        self.insert(key, Value::Text(copy(text)));
    }

    /// Gives the field `key` the value `value`, unless it has one.
    pub fn try_insert(&mut self, key: &str, value: Value)
        ensures
            final(self)@ == if old(self)@.contains_key(key@) {
                old(self)@
            } else {
                old(self)@.insert(key@, value@)
            },
    {
        if !self.fields.contains_key(key) {
            self.insert(key, value);
        }
    }

    /// What the field `key` holds.
    pub fn get(&self, key: &str) -> (r: Option<&Value>)
        ensures
            match r {
                Some(v) => self@.contains_key(key@) && self@[key@] == v@,
                None => !self@.contains_key(key@),
            },
    {
        self.fields.get(key)
    }
}

/// What a field holds is read as what it is.
pub proof fn law_values_are_read_as_they_are(v: Value)
    ensures
        v matches Value::Text(s) ==> v@ == ValueView::Text(s@),
        v matches Value::Integer(n) ==> v@ == ValueView::Integer(n),
        v matches Value::Timestamp(t) ==> v@ == ValueView::Timestamp(t),
        v is Null ==> v@ is Null,
{
}

} // verus!

//! Values of the two formats in which mods describe themselves, JSON and TOML,
//! as one type, and how they are read from text.
use vstd::prelude::*;

use crate::text::str_eq;

verus! {

/// A value of JSON or TOML.
#[derive(Debug)]
pub enum Data {
    Null,
    Bool(bool),
    /// A number or a date, as it is written.
    Scalar(String),
    Text(String),
    List(Vec<Data>),
    /// Keys with their values, in the order of the keys.
    Table(Vec<(String, Data)>),
}

/// What a value comes down to.
pub enum DataView {
    Null,
    Bool(bool),
    Scalar(Seq<char>),
    Text(Seq<char>),
    List(Seq<DataView>),
    Table(Seq<(Seq<char>, DataView)>),
}

/// What a value comes down to.
pub open spec fn shape(d: Data) -> DataView
    decreases d,
{
    match d {
        Data::Null => DataView::Null,
        Data::Bool(b) => DataView::Bool(b),
        Data::Scalar(s) => DataView::Scalar(s@),
        Data::Text(s) => DataView::Text(s@),
        Data::List(v) => DataView::List(
            Seq::new(
                v@.len(),
                |i: int|
                    if 0 <= i < v@.len() {
                        shape(v@[i])
                    } else {
                        DataView::Null
                    },
            ),
        ),
        Data::Table(v) => DataView::Table(
            Seq::new(
                v@.len(),
                |i: int|
                    if 0 <= i < v@.len() {
                        (v@[i].0@, shape(v@[i].1))
                    } else {
                        (Seq::<char>::empty(), DataView::Null)
                    },
            ),
        ),
    }
}

impl View for Data {
    type V = DataView;

    open spec fn view(&self) -> DataView {
        shape(*self)
    }
}

/// What a table holds under a key, from one place on.
pub open spec fn entry_from(t: Seq<(Seq<char>, DataView)>, key: Seq<char>, i: int) -> Option<
    DataView,
>
    decreases t.len() - i,
{
    if i < 0 || i >= t.len() {
        None
    } else if t[i].0 == key {
        Some(t[i].1)
    } else {
        entry_from(t, key, i + 1)
    }
}

/// What a value holds under a key. Only tables hold anything.
pub open spec fn field(v: DataView, key: Seq<char>) -> Option<DataView> {
    match v {
        DataView::Table(t) => entry_from(t, key, 0),
        _ => None,
    }
}

/// The text of a value that is one.
pub open spec fn text_of(v: Option<DataView>) -> Option<Seq<char>> {
    match v {
        Some(DataView::Text(s)) => Some(s),
        _ => None,
    }
}

impl Data {
    /// What the value holds under a key.
    pub fn get(&self, key: &str) -> (r: Option<&Data>)
        ensures
            match r {
                Some(d) => field(self@, key@) == Some(d@),
                None => field(self@, key@) is None,
            },
    {
        match self {
            Data::Table(entries) => {
                let mut i: usize = 0;
                let ghost t = self@->Table_0;
                while i < entries.len()
                    invariant
                        i <= entries.len(),
                        *self == Data::Table(*entries),
                        self@ == DataView::Table(t),
                        t.len() == entries@.len(),
                        entry_from(t, key@, 0) == entry_from(t, key@, i as int),
                    decreases entries.len() - i,
                {
                    assert(t[i as int] == (entries@[i as int].0@, entries@[i as int].1@));
                    if str_eq(entries[i].0.as_str(), key) {
                        return Some(&entries[i].1);
                    }
                    i = i + 1;
                }
                None
            },
            _ => None,
        }
    }

    /// The text, where the value is one.
    pub fn as_str(&self) -> (r: Option<&str>)
        ensures
            match r {
                Some(s) => self@ == DataView::Text(s@),
                None => !(self@ is Text),
            },
    {
        match self {
            Data::Text(s) => Some(s.as_str()),
            _ => None,
        }
    }
}

/// A JSON value of the `serde_json` crate.
#[verifier::external_type_specification]
#[verifier::external_body]
pub struct ExJsonValue(serde_json::Value);

/// A TOML value of the `toml` crate.
#[verifier::external_type_specification]
#[verifier::external_body]
pub struct ExTomlValue(toml::Value);

/// What `serde_json` reads from a text; nothing where the text is not JSON.
pub uninterp spec fn json_read(text: Seq<char>) -> Option<DataView>;

/// What a JSON value holds.
pub uninterp spec fn json_held(value: serde_json::Value) -> DataView;

/// What `toml` reads from a text; nothing where the text is not TOML.
pub uninterp spec fn toml_read(text: Seq<char>) -> Option<DataView>;

/// What a TOML value holds.
pub uninterp spec fn toml_held(value: toml::Value) -> DataView;

/// Calls `serde_json::from_str`. Claimed: whether it succeeds, and what the value
/// then holds, depends on the text alone.
#[verifier::external_body]
fn json_value(text: &str) -> (r: Option<serde_json::Value>)
    ensures
        match r {
            Some(v) => json_read(text@) == Some(json_held(v)),
            None => json_read(text@) is None,
        },
{
    serde_json::from_str::<serde_json::Value>(text).ok()
}

/// Takes a `serde_json::Value` apart, variant by variant. Claimed: the result is
/// what the value holds.
#[verifier::external_body]
fn json_data(value: serde_json::Value) -> (r: Data)
    ensures
        r@ == json_held(value),
{
    match value {
        serde_json::Value::Null => Data::Null,
        serde_json::Value::Bool(b) => Data::Bool(b),
        serde_json::Value::Number(n) => Data::Scalar(n.to_string()),
        serde_json::Value::String(s) => Data::Text(s),
        serde_json::Value::Array(v) => Data::List(v.into_iter().map(json_data).collect()),
        serde_json::Value::Object(m) => {
            Data::Table(m.into_iter().map(|(k, v)| (k, json_data(v))).collect())
        },
    }
}

/// Calls `toml::Value::from_str`. Claimed: whether it succeeds, and what the value
/// then holds, depends on the text alone.
#[verifier::external_body]
fn toml_value(text: &str) -> (r: Option<toml::Value>)
    ensures
        match r {
            Some(v) => toml_read(text@) == Some(toml_held(v)),
            None => toml_read(text@) is None,
        },
{
    text.parse::<toml::Value>().ok()
}

/// Takes a `toml::Value` apart, variant by variant. Claimed: the result is what
/// the value holds.
#[verifier::external_body]
fn toml_data(value: toml::Value) -> (r: Data)
    ensures
        r@ == toml_held(value),
{
    match value {
        toml::Value::String(s) => Data::Text(s),
        toml::Value::Integer(n) => Data::Scalar(n.to_string()),
        toml::Value::Float(n) => Data::Scalar(n.to_string()),
        toml::Value::Boolean(b) => Data::Bool(b),
        toml::Value::Datetime(d) => Data::Scalar(d.to_string()),
        toml::Value::Array(v) => Data::List(v.into_iter().map(toml_data).collect()),
        toml::Value::Table(m) => {
            Data::Table(m.into_iter().map(|(k, v)| (k, toml_data(v))).collect())
        },
    }
}

/// Reads JSON.
pub fn parse_json(text: &str) -> (r: Option<Data>)
    ensures
        match r {
            Some(d) => json_read(text@) == Some(d@),
            None => json_read(text@) is None,
        },
{
    match json_value(text) {
        Some(v) => Some(json_data(v)),
        None => None,
    }
}

/// Reads TOML.
pub fn parse_toml(text: &str) -> (r: Option<Data>)
    ensures
        match r {
            Some(d) => toml_read(text@) == Some(d@),
            None => toml_read(text@) is None,
        },
{
    match toml_value(text) {
        Some(v) => Some(toml_data(v)),
        None => None,
    }
}

} // verus!

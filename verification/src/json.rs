//! JSON values, and reading and printing them.

use vstd::prelude::*;
use crate::text::{concat2, decimal_text, same_text};

verus! {

broadcast use vstd::string::group_string_axioms;

/// A JSON number: its integer value where it has one, and how it is printed.
#[derive(Debug)]
pub struct JsonNumber {
    pub as_i64: Option<i64>,
    pub as_u64: Option<u64>,
    pub digits: String,
}

/// A JSON value.
#[derive(Debug)]
pub enum JsonValue {
    Null,
    Bool(bool),
    Number(JsonNumber),
    Text(String),
    Array(Vec<JsonValue>),
    Object(Vec<(String, JsonValue)>),
}

/// The view of a JSON value.
pub ghost enum JsonView {
    Null,
    Bool(bool),
    Number(Option<i64>, Option<u64>, Seq<char>),
    Text(Seq<char>),
    Array(Seq<JsonView>),
    Object(Seq<(Seq<char>, JsonView)>),
}

impl JsonValue {
    pub open spec fn view(&self) -> JsonView
        decreases self,
    {
        match self {
            JsonValue::Null => JsonView::Null,
            JsonValue::Bool(b) => JsonView::Bool(*b),
            JsonValue::Number(n) => JsonView::Number(n.as_i64, n.as_u64, n.digits@),
            JsonValue::Text(s) => JsonView::Text(s@),
            JsonValue::Array(items) => JsonView::Array(
                Seq::new(
                    items@.len(),
                    |i: int|
                        if 0 <= i < items@.len() {
                            items@[i].view()
                        } else {
                            JsonView::Null
                        },
                ),
            ),
            JsonValue::Object(fields) => JsonView::Object(
                Seq::new(
                    fields@.len(),
                    |i: int|
                        if 0 <= i < fields@.len() {
                            (fields@[i].0@, fields@[i].1.view())
                        } else {
                            (Seq::empty(), JsonView::Null)
                        },
                ),
            ),
        }
    }
}

/// The value under `key` among `fields`: the first one.
pub open spec fn field_in(fields: Seq<(Seq<char>, JsonView)>, key: Seq<char>) -> Option<JsonView>
    decreases fields.len(),
{
    if fields.len() == 0 {
        None
    } else if fields[0].0 == key {
        Some(fields[0].1)
    } else {
        field_in(fields.drop_first(), key)
    }
}

/// The value under `key`; there is none in anything but an object.
pub open spec fn field(value: JsonView, key: Seq<char>) -> Option<JsonView> {
    match value {
        JsonView::Object(fields) => field_in(fields, key),
        _ => None,
    }
}

/// The text that is under `key`.
pub open spec fn text_field(value: JsonView, key: Seq<char>) -> Option<Seq<char>> {
    match field(value, key) {
        Some(JsonView::Text(s)) => Some(s),
        _ => None,
    }
}

/// The boolean that is under `key`.
pub open spec fn bool_field(value: JsonView, key: Seq<char>) -> Option<bool> {
    match field(value, key) {
        Some(JsonView::Bool(b)) => Some(b),
        _ => None,
    }
}

/// The signed integer that is under `key`.
pub open spec fn int_field(value: JsonView, key: Seq<char>) -> Option<i64> {
    match field(value, key) {
        Some(JsonView::Number(signed, _, _)) => signed,
        _ => None,
    }
}

/// The unsigned integer that is under `key`.
pub open spec fn uint_field(value: JsonView, key: Seq<char>) -> Option<u64> {
    match field(value, key) {
        Some(JsonView::Number(_, unsigned, _)) => unsigned,
        _ => None,
    }
}

/// The view of an optional JSON value.
pub open spec fn opt_json(value: Option<JsonValue>) -> Option<JsonView> {
    match value {
        Some(v) => Some(v@),
        None => None,
    }
}

impl JsonValue {
    /// The value under `key`.
    pub fn get(&self, key: &str) -> (value: Option<&JsonValue>)
        ensures
            match value {
                Some(v) => field(self@, key@) == Some(v@),
                None => field(self@, key@) is None,
            },
    {
        match self {
            JsonValue::Object(fields) => {
                let ghost all = self@->Object_0;
                let mut i: usize = 0;
                assert(all.skip(0) =~= all);
                while i < fields.len()
                    invariant
                        i <= fields@.len(),
                        self@ == JsonView::Object(all),
                        all.len() == fields@.len(),
                        forall|k: int|
                            0 <= k < fields@.len() ==> #[trigger] all[k] == (
                                fields@[k].0@,
                                fields@[k].1@,
                            ),
                        field_in(all, key@) == field_in(all.skip(i as int), key@),
                    decreases fields.len() - i,
                {
                    let ghost rest = all.skip(i as int);
                    assert(rest[0] == all[i as int]);
                    if same_text(fields[i].0.as_str(), key) {
                        return Some(&fields[i].1);
                    }
                    assert(rest.drop_first() =~= all.skip(i + 1));
                    i += 1;
                }
                None
            },
            _ => None,
        }
    }

    /// A copy of the value.
    pub fn copy(&self) -> (r: JsonValue)
        ensures
            r@ == self@,
        decreases self,
    {
        match self {
            JsonValue::Null => JsonValue::Null,
            JsonValue::Bool(b) => JsonValue::Bool(*b),
            JsonValue::Number(n) => JsonValue::Number(
                JsonNumber { as_i64: n.as_i64, as_u64: n.as_u64, digits: n.digits.clone() },
            ),
            JsonValue::Text(s) => JsonValue::Text(s.clone()),
            JsonValue::Array(items) => {
                let mut copied: Vec<JsonValue> = Vec::new();
                let mut i: usize = 0;
                while i < items.len()
                    invariant
                        i <= items@.len(),
                        self matches JsonValue::Array(v) && v == items,
                        copied@.len() == i,
                        forall|k: int| 0 <= k < i ==> (#[trigger] copied@[k])@ == items@[k]@,
                    decreases items.len() - i,
                {
                    copied.push(items[i].copy());
                    i += 1;
                }
                let r = JsonValue::Array(copied);
                assert(r@->Array_0 =~= self@->Array_0);
                r
            },
            JsonValue::Object(fields) => {
                let mut copied: Vec<(String, JsonValue)> = Vec::new();
                let mut i: usize = 0;
                while i < fields.len()
                    invariant
                        i <= fields@.len(),
                        self matches JsonValue::Object(v) && v == fields,
                        copied@.len() == i,
                        forall|k: int|
                            0 <= k < i ==> (#[trigger] copied@[k]).0@ == fields@[k].0@
                                && copied@[k].1@ == fields@[k].1@,
                    decreases fields.len() - i,
                {
                    copied.push((fields[i].0.clone(), fields[i].1.copy()));
                    i += 1;
                }
                let r = JsonValue::Object(copied);
                assert(r@->Object_0 =~= self@->Object_0);
                r
            },
        }
    }

    /// The value under `key`, taken out.
    pub fn into_field(self, key: &str) -> (value: Option<JsonValue>)
        ensures
            opt_json(value) == field(self@, key@),
    {
        match self {
            JsonValue::Object(fields) => {
                let ghost all = self@->Object_0;
                let mut fields = fields;
                let ghost mut done: int = 0;
                assert(all.skip(0) =~= all);
                while fields.len() > 0
                    invariant
                        0 <= done <= all.len(),
                        self@ == JsonView::Object(all),
                        fields@.len() == all.len() - done,
                        forall|k: int|
                            0 <= k < fields@.len() ==> #[trigger] all[done + k] == (
                                fields@[k].0@,
                                fields@[k].1@,
                            ),
                        field_in(all, key@) == field_in(all.skip(done), key@),
                    decreases fields.len(),
                {
                    let ghost before = fields@;
                    let ghost rest = all.skip(done);
                    let (name, value) = fields.remove(0);
                    proof {
                        assert(rest[0] == all[done + 0]);
                        assert(rest.drop_first() =~= all.skip(done + 1));
                        assert forall|k: int| 0 <= k < fields@.len() implies #[trigger] all[done + 1
                            + k] == (fields@[k].0@, fields@[k].1@) by {
                            assert(fields@[k] == before[k + 1]);
                            assert(all[done + (k + 1)] == (before[k + 1].0@, before[k + 1].1@));
                        }
                    }
                    if same_text(name.as_str(), key) {
                        return Some(value);
                    }
                    proof {
                        done = done + 1;
                    }
                }
                None
            },
            _ => None,
        }
    }

    pub fn as_str(&self) -> (s: Option<&str>)
        ensures
            match s {
                Some(s) => self@ == JsonView::Text(s@),
                None => !(self@ is Text),
            },
    {
        match self {
            JsonValue::Text(s) => Some(s.as_str()),
            _ => None,
        }
    }

    pub fn get_str(&self, key: &str) -> (s: Option<&str>)
        ensures
            crate::text::opt_str(s) == text_field(self@, key@),
    {
        match self.get(key) {
            Some(value) => value.as_str(),
            None => None,
        }
    }

    pub fn get_bool(&self, key: &str) -> (b: Option<bool>)
        ensures
            b == bool_field(self@, key@),
    {
        match self.get(key) {
            Some(JsonValue::Bool(b)) => Some(*b),
            _ => None,
        }
    }

    pub fn get_i64(&self, key: &str) -> (n: Option<i64>)
        ensures
            n == int_field(self@, key@),
    {
        match self.get(key) {
            Some(JsonValue::Number(n)) => n.as_i64,
            _ => None,
        }
    }

    pub fn get_u64(&self, key: &str) -> (n: Option<u64>)
        ensures
            n == uint_field(self@, key@),
    {
        match self.get(key) {
            Some(JsonValue::Number(n)) => n.as_u64,
            _ => None,
        }
    }
}

/// An object that is being put together.
pub struct JsonObject {
    fields: Vec<(String, JsonValue)>,
}

/// The view of the fields of an object.
pub open spec fn fields_view(fields: Seq<(String, JsonValue)>) -> Seq<(Seq<char>, JsonView)> {
    Seq::new(fields.len(), |i: int| (fields[i].0@, fields[i].1@))
}

impl View for JsonObject {
    type V = Seq<(Seq<char>, JsonView)>;

    closed spec fn view(&self) -> Seq<(Seq<char>, JsonView)> {
        fields_view(self.fields@)
    }
}

impl JsonObject {
    pub fn new() -> (r: Self)
        ensures
            r@ == Seq::<(Seq<char>, JsonView)>::empty(),
    {
        let r = JsonObject { fields: Vec::new() };
        assert(r@ =~= Seq::empty());
        r
    }

    /// The object with one more field.
    pub fn with(self, key: &str, value: JsonValue) -> (r: Self)
        ensures
            r@ == self@.push((key@, value@)),
    {
        let ghost before = self.fields@;
        let mut fields = self.fields;
        fields.push((key.to_owned(), value));
        assert(fields_view(fields@) =~= fields_view(before).push((key@, value@)));
        JsonObject { fields }
    }

    /// The object as a value.
    pub fn done(self) -> (value: JsonValue)
        ensures
            value@ == JsonView::Object(self@),
    {
        let ghost all = self.fields@;
        let value = JsonValue::Object(self.fields);
        assert(value@->Object_0 =~= fields_view(all));
        value
    }
}

/// A text as a value.
pub fn json_text(text: &str) -> (value: JsonValue)
    ensures
        value@ == JsonView::Text(text@),
{
    JsonValue::Text(text.to_owned())
}

/// An optional text as a value: `null` where there is none.
pub open spec fn text_or_null(text: Option<Seq<char>>) -> JsonView {
    match text {
        Some(t) => JsonView::Text(t),
        None => JsonView::Null,
    }
}

pub fn json_opt_text(text: &Option<String>) -> (value: JsonValue)
    ensures
        value@ == text_or_null(crate::text::opt_view(*text)),
{
    match text {
        Some(t) => JsonValue::Text(t.clone()),
        None => JsonValue::Null,
    }
}

/// An unsigned integer as a value.
pub open spec fn uint_value(n: u64) -> JsonView {
    JsonView::Number(
        if n <= i64::MAX {
            Some(n as i64)
        } else {
            None
        },
        Some(n),
        crate::text::decimal(n as nat),
    )
}

pub fn json_uint(n: u64) -> (value: JsonValue)
    ensures
        value@ == uint_value(n),
{
    let as_i64 = if n <= 9223372036854775807 {
        Some(n as i64)
    } else {
        None
    };
    JsonValue::Number(JsonNumber { as_i64, as_u64: Some(n), digits: decimal_text(n) })
}

/// A signed integer as a value.
pub open spec fn int_value(n: i64) -> JsonView {
    if n >= 0 {
        uint_value(n as u64)
    } else {
        JsonView::Number(Some(n), None, "-"@ + crate::text::decimal((-n) as nat))
    }
}

pub fn json_int(n: i64) -> (value: JsonValue)
    ensures
        value@ == int_value(n),
{
    if n >= 0 {
        json_uint(n as u64)
    } else {
        let size = (-(n as i128)) as u64;
        JsonValue::Number(
            JsonNumber {
                as_i64: Some(n),
                as_u64: None,
                digits: concat2("-", decimal_text(size).as_str()),
            },
        )
    }
}

/// `serde_json::Value`.
#[verifier::external_type_specification]
#[verifier::external_body]
pub struct ExSerdeValue(serde_json::Value);

/// A name for what `serde_json` reads from a text, where it is valid JSON.
pub uninterp spec fn parsed_json(raw: Seq<char>) -> Option<JsonView>;

/// A name for how `serde_json` prints a value.
pub uninterp spec fn printed_json(value: JsonView) -> Seq<char>;

/// Takes a `serde_json::Value` apart, variant by variant. Nothing is said of
/// the result here: `parse_json` names it as a whole.
#[verifier::external_body]
fn json_from_value(value: serde_json::Value) -> (r: JsonValue) {
    match value {
        serde_json::Value::Null => JsonValue::Null,
        serde_json::Value::Bool(b) => JsonValue::Bool(b),
        serde_json::Value::Number(n) => JsonValue::Number(
            JsonNumber { as_i64: n.as_i64(), as_u64: n.as_u64(), digits: n.to_string() },
        ),
        serde_json::Value::String(s) => JsonValue::Text(s),
        serde_json::Value::Array(v) => JsonValue::Array(v.into_iter().map(json_from_value).collect()),
        serde_json::Value::Object(m) => JsonValue::Object(
            m.into_iter().map(|(k, v)| (k, json_from_value(v))).collect(),
        ),
    }
}

/// Builds a `serde_json::Value`, variant by variant. Nothing is said of the
/// result here: `print_json` names what comes of it.
#[verifier::external_body]
fn json_to_value(value: &JsonValue) -> (r: serde_json::Value) {
    match value {
        JsonValue::Null => serde_json::Value::Null,
        JsonValue::Bool(b) => serde_json::Value::Bool(*b),
        JsonValue::Number(n) => serde_json::from_str(n.digits.as_str()).unwrap_or_default(),
        JsonValue::Text(s) => serde_json::Value::String(s.clone()),
        JsonValue::Array(v) => serde_json::Value::Array(v.iter().map(json_to_value).collect()),
        JsonValue::Object(m) => serde_json::Value::Object(
            m.iter().map(|(k, v)| (k.clone(), json_to_value(v))).collect(),
        ),
    }
}

/// `serde_json::from_str` to a `serde_json::Value`, taken apart. Its result is
/// named `parsed_json`: none where the text is not valid JSON.
#[verifier::external_body]
pub(crate) fn parse_json(raw: &str) -> (value: Option<JsonValue>)
    ensures
        opt_json(value) == parsed_json(raw@),
{
    match serde_json::from_str::<serde_json::Value>(raw) {
        Ok(value) => Some(json_from_value(value)),
        Err(_) => None,
    }
}

/// `to_string` of the `serde_json::Value` that stands for `value`. Its result
/// is named `printed_json`.
#[verifier::external_body]
pub(crate) fn print_json(value: &JsonValue) -> (printed: String)
    ensures
        printed@ == printed_json(value@),
{
    json_to_value(value).to_string()
}

impl JsonValue {
    /// The value in a text; none where it is not valid JSON.
    pub fn parse(raw: &str) -> (value: Option<JsonValue>)
        ensures
            opt_json(value) == parsed_json(raw@),
    {
        parse_json(raw)
    }

    /// The value as a text.
    pub fn to_text(&self) -> (printed: String)
        ensures
            printed@ == printed_json(self@),
    {
        print_json(self)
    }
}

} // verus!

//! JSON values as the library reads and builds them.
use vstd::prelude::*;
use vstd::string::*;

use serde_json::Value;

use crate::text::str_eq;

verus! {

/// A JSON number: a whole number that fits in 64 bits, or the decimal text of
/// any other.
#[derive(Debug, PartialEq, Eq)]
pub enum JsonNumber {
    Unsigned(u64),
    Negative(i64),
    Decimal(String),
}

/// A JSON value.
#[derive(Debug, PartialEq, Eq)]
pub enum JsonValue {
    Null,
    Bool(bool),
    Number(JsonNumber),
    Text(String),
    Array(Vec<JsonValue>),
    Object(JsonMap),
}

/// The fields of a JSON object.
#[derive(Debug, PartialEq, Eq)]
pub struct JsonMap {
    pub entries: Vec<(String, JsonValue)>,
}

pub enum NumberView {
    Unsigned(u64),
    Negative(i64),
    Decimal(Seq<char>),
}

/// A JSON value over mathematical sequences.
pub enum JsonView {
    Null,
    Bool(bool),
    Number(NumberView),
    Text(Seq<char>),
    Array(Seq<JsonView>),
    Object(Seq<(Seq<char>, JsonView)>),
}

impl JsonNumber {
    pub open spec fn view(&self) -> NumberView {
        match self {
            JsonNumber::Unsigned(n) => NumberView::Unsigned(*n),
            JsonNumber::Negative(n) => NumberView::Negative(*n),
            JsonNumber::Decimal(s) => NumberView::Decimal(s@),
        }
    }

    pub fn copy(&self) -> (r: JsonNumber)
        ensures
            r@ == self@,
    {
        match self {
            JsonNumber::Unsigned(n) => JsonNumber::Unsigned(*n),
            JsonNumber::Negative(n) => JsonNumber::Negative(*n),
            JsonNumber::Decimal(s) => JsonNumber::Decimal(s.clone()),
        }
    }
}

impl JsonValue {
    pub open spec fn view(&self) -> JsonView
        decreases self,
    {
        match self {
            JsonValue::Null => JsonView::Null,
            JsonValue::Bool(b) => JsonView::Bool(*b),
            JsonValue::Number(n) => JsonView::Number(n@),
            JsonValue::Text(s) => JsonView::Text(s@),
            JsonValue::Array(items) => JsonView::Array(
                Seq::new(
                    items@.len(),
                    |i: int|
                        if 0 <= i < items@.len() {
                            items@[i].view()
                        } else {
                            JsonView::Null
                        },
                ),
            ),
            JsonValue::Object(map) => JsonView::Object(map.view()),
        }
    }

    /// A copy of the value.
    pub fn copy(&self) -> (r: JsonValue)
        ensures
            r@ == self@,
        decreases self,
    {
        match self {
            JsonValue::Null => JsonValue::Null,
            JsonValue::Bool(b) => JsonValue::Bool(*b),
            JsonValue::Number(n) => JsonValue::Number(n.copy()),
            JsonValue::Text(s) => JsonValue::Text(s.clone()),
            JsonValue::Array(items) => {
                let mut out: Vec<JsonValue> = Vec::new();
                let mut i: usize = 0;
                while i < items.len()
                    invariant
                        i <= items.len(),
                        out.len() == i,
                        decreases_to!(self => items@),
                        forall|j: int| 0 <= j < i ==> (#[trigger] out@[j])@ == items@[j]@,
                    decreases items.len() - i,
                {
                    let item = items[i].copy();
                    out.push(item);
                    i += 1;
                }
                let r = JsonValue::Array(out);
                assert(r@->Array_0 =~= self@->Array_0);
                r
            },
            JsonValue::Object(map) => JsonValue::Object(map.copy()),
        }
    }
}

impl JsonMap {
    pub open spec fn view(&self) -> Seq<(Seq<char>, JsonView)>
        decreases self,
    {
        Seq::new(
            self.entries@.len(),
            |i: int|
                if 0 <= i < self.entries@.len() {
                    (self.entries@[i].0@, self.entries@[i].1.view())
                } else {
                    (Seq::empty(), JsonView::Null)
                },
        )
    }

    pub fn copy(&self) -> (r: JsonMap)
        ensures
            r@ == self@,
        decreases self,
    {
        let mut out: Vec<(String, JsonValue)> = Vec::new();
        let mut i: usize = 0;
        while i < self.entries.len()
            invariant
                i <= self.entries.len(),
                out.len() == i,
                forall|j: int| 0 <= j < i ==> (#[trigger] out@[j]).0@ == self.entries@[j].0@,
                forall|j: int| 0 <= j < i ==> (#[trigger] out@[j]).1@ == self.entries@[j].1@,
            decreases self.entries.len() - i,
        {
            let key = self.entries[i].0.clone();
            let value = self.entries[i].1.copy();
            out.push((key, value));
            i += 1;
        }
        let r = JsonMap { entries: out };
        assert(r@ =~= self@);
        r
    }
}

// ------------------------------------------------------------------ objects

/// The value of the first entry of `entries` under `key`.
pub open spec fn field(entries: Seq<(Seq<char>, JsonView)>, key: Seq<char>) -> Option<JsonView>
    decreases entries.len(),
{
    if entries.len() == 0 {
        None
    } else if entries[0].0 == key {
        Some(entries[0].1)
    } else {
        field(entries.drop_first(), key)
    }
}

/// `entries` with `value` under `key`: in the place of the first entry of that
/// key, or at the end.
pub open spec fn with_field(
    entries: Seq<(Seq<char>, JsonView)>,
    key: Seq<char>,
    value: JsonView,
) -> Seq<(Seq<char>, JsonView)>
    decreases entries.len(),
{
    if entries.len() == 0 {
        seq![(key, value)]
    } else if entries[0].0 == key {
        seq![(key, value)] + entries.drop_first()
    } else {
        seq![entries[0]] + with_field(entries.drop_first(), key, value)
    }
}

/// `entries` without those under `key`.
pub open spec fn without_field(
    entries: Seq<(Seq<char>, JsonView)>,
    key: Seq<char>,
) -> Seq<(Seq<char>, JsonView)>
    decreases entries.len(),
{
    if entries.len() == 0 {
        entries
    } else if entries.last().0 == key {
        without_field(entries.drop_last(), key)
    } else {
        without_field(entries.drop_last(), key).push(entries.last())
    }
}

/// An object without fields, to which they are pushed.
pub open spec fn no_fields() -> Seq<(Seq<char>, JsonView)> {
    Seq::empty()
}

/// A list without values, to which they are pushed.
pub open spec fn no_items() -> Seq<JsonView> {
    Seq::empty()
}

pub open spec fn json_views(items: Seq<JsonValue>) -> Seq<JsonView> {
    items.map_values(|v: JsonValue| v@)
}

/// The field `key` of a value that is an object.
pub open spec fn member(value: JsonView, key: Seq<char>) -> Option<JsonView> {
    match value {
        JsonView::Object(entries) => field(entries, key),
        _ => None,
    }
}

/// The text of a value that is a text.
pub open spec fn as_text(value: Option<JsonView>) -> Option<Seq<char>> {
    match value {
        Some(JsonView::Text(s)) => Some(s),
        _ => None,
    }
}

/// Setting a field is read back under its key, and leaves the other keys as
/// they were.
pub proof fn set_field_is_read_back(
    entries: Seq<(Seq<char>, JsonView)>,
    key: Seq<char>,
    value: JsonView,
    other: Seq<char>,
)
    ensures
        field(with_field(entries, key, value), key) == Some(value),
        other != key ==> field(with_field(entries, key, value), other) == field(entries, other),
    decreases entries.len(),
{
    let after = with_field(entries, key, value);
    if entries.len() > 0 {
        set_field_is_read_back(entries.drop_first(), key, value, other);
        if entries[0].0 == key {
            assert(after.drop_first() =~= entries.drop_first());
        } else {
            assert(after.drop_first() =~= with_field(entries.drop_first(), key, value));
        }
    } else {
        assert(after.drop_first() =~= entries);
    }
}

/// What is read once an entry is at the end.
pub proof fn lemma_field_push(
    entries: Seq<(Seq<char>, JsonView)>,
    entry: (Seq<char>, JsonView),
    key: Seq<char>,
)
    ensures
        field(entries.push(entry), key) == (match field(entries, key) {
            Some(v) => Some(v),
            None => if entry.0 == key {
                Some(entry.1)
            } else {
                None
            },
        }),
    decreases entries.len(),
{
    if entries.len() > 0 {
        lemma_field_push(entries.drop_first(), entry, key);
        assert(entries.push(entry).drop_first() =~= entries.drop_first().push(entry));
    } else {
        assert(entries.push(entry).drop_first() =~= entries);
    }
}

/// A removed field is gone, and the other keys read as before.
pub proof fn removed_field_is_gone(
    entries: Seq<(Seq<char>, JsonView)>,
    key: Seq<char>,
    other: Seq<char>,
)
    ensures
        field(without_field(entries, key), key) is None,
        other != key ==> field(without_field(entries, key), other) == field(entries, other),
    decreases entries.len(),
{
    if entries.len() > 0 {
        let head = entries.drop_last();
        removed_field_is_gone(head, key, other);
        assert(head.push(entries.last()) =~= entries);
        lemma_field_push(head, entries.last(), other);
        lemma_field_push(head, entries.last(), key);
        lemma_field_push(without_field(head, key), entries.last(), other);
        lemma_field_push(without_field(head, key), entries.last(), key);
    }
}

/// The first entry under `key` is the one at `i`.
proof fn lemma_field_at(entries: Seq<(Seq<char>, JsonView)>, key: Seq<char>, i: int)
    requires
        0 <= i <= entries.len(),
        forall|j: int| 0 <= j < i ==> (#[trigger] entries[j]).0 != key,
        i < entries.len() ==> entries[i].0 == key,
    ensures
        i < entries.len() ==> field(entries, key) == Some(entries[i].1),
        i == entries.len() ==> field(entries, key) is None,
        forall|v: JsonView| #[trigger]
            with_field(entries, key, v) == (if i < entries.len() {
                entries.update(i, (key, v))
            } else {
                entries.push((key, v))
            }),
    decreases entries.len(),
{
    if entries.len() > 0 {
        let tail = entries.drop_first();
        if i > 0 {
            assert forall|j: int| 0 <= j < i - 1 implies (#[trigger] tail[j]).0 != key by {
                assert(tail[j] == entries[j + 1]);
            }
            lemma_field_at(tail, key, i - 1);
        }
    }
    assert forall|v: JsonView| #[trigger]
        with_field(entries, key, v) == (if i < entries.len() {
            entries.update(i, (key, v))
        } else {
            entries.push((key, v))
        }) by {
        if entries.len() == 0 {
            assert(entries.push((key, v)) =~= seq![(key, v)]);
        } else if i == 0 {
            assert(entries.update(0, (key, v)) =~= seq![(key, v)] + entries.drop_first());
        } else {
            let tail = entries.drop_first();
            assert(with_field(tail, key, v) == with_field(tail, key, v));
            if i < entries.len() {
                assert(entries.update(i, (key, v)) =~= seq![entries[0]] + tail.update(
                    i - 1,
                    (key, v),
                ));
            } else {
                assert(entries.push((key, v)) =~= seq![entries[0]] + tail.push((key, v)));
            }
        }
    }
}

impl JsonMap {
    /// An object without fields.
    pub fn new() -> (r: JsonMap)
        ensures
            r@ == no_fields(),
    {
        let r = JsonMap { entries: Vec::new() };
        assert(r@ =~= no_fields());
        r
    }

    /// The object with one field more at its end.
    pub fn with(self, key: &str, value: JsonValue) -> (r: JsonMap)
        ensures
            r@ == self@.push((key@, value@)),
    {
        let ghost before = self@;
        let mut r = self;
        r.entries.push((key.to_owned(), value));
        assert(r@ =~= before.push((key@, value@)));
        r
    }

    fn position(&self, key: &str) -> (i: usize)
        ensures
            i <= self@.len(),
            self@.len() == self.entries@.len(),
            forall|j: int| 0 <= j < i ==> (#[trigger] self@[j]).0 != key@,
            i < self@.len() ==> self@[i as int].0 == key@,
    {
        let mut i: usize = 0;
        while i < self.entries.len()
            invariant
                i <= self.entries.len(),
                forall|j: int| 0 <= j < i ==> (#[trigger] self@[j]).0 != key@,
            decreases self.entries.len() - i,
        {
            assert(self@[i as int].0 == self.entries@[i as int].0@);
            if str_eq(&self.entries[i].0, key) {
                return i;
            }
            i += 1;
        }
        i
    }

    /// The value under `key`.
    pub fn get(&self, key: &str) -> (r: Option<&JsonValue>)
        ensures
            match r {
                Some(v) => field(self@, key@) == Some(v@),
                None => field(self@, key@) is None,
            },
    {
        let i = self.position(key);
        proof {
            lemma_field_at(self@, key@, i as int);
        }
        if i < self.entries.len() {
            Some(&self.entries[i].1)
        } else {
            None
        }
    }

    /// Whether there is a value under `key`.
    pub fn contains_key(&self, key: &str) -> (r: bool)
        ensures
            r == (field(self@, key@) is Some),
    {
        match self.get(key) {
            Some(_) => true,
            None => false,
        }
    }

    /// Puts `value` under `key`.
    pub fn insert(&mut self, key: &str, value: JsonValue)
        ensures
            final(self)@ == with_field(old(self)@, key@, value@),
    {
        let ghost before = self@;
        let i = self.position(key);
        proof {
            lemma_field_at(before, key@, i as int);
            assert(with_field(before, key@, value@) == with_field(before, key@, value@));
        }
        if i < self.entries.len() {
            self.entries.set(i, (key.to_owned(), value));
            assert(self@ =~= before.update(i as int, (key@, value@)));
        } else {
            self.entries.push((key.to_owned(), value));
            assert(self@ =~= before.push((key@, value@)));
        }
    }

    /// Takes what is under `key` out.
    pub fn remove(&mut self, key: &str)
        ensures
            final(self)@ == without_field(old(self)@, key@),
    {
        let ghost before = self@;
        let mut kept: Vec<(String, JsonValue)> = Vec::new();
        let mut i: usize = 0;
        while i < self.entries.len()
            invariant
                i <= self.entries.len(),
                self@ == before,
                (JsonMap { entries: kept })@ == without_field(before.take(i as int), key@),
            decreases self.entries.len() - i,
        {
            let ghost kept_before = JsonMap { entries: kept };
            let ghost step = before.take(i + 1);
            assert(step.drop_last() =~= before.take(i as int));
            assert(step.last() == (self.entries@[i as int].0@, self.entries@[i as int].1@));
            if !str_eq(&self.entries[i].0, key) {
                let name = self.entries[i].0.clone();
                let value = self.entries[i].1.copy();
                kept.push((name, value));
                assert(JsonMap { entries: kept }@ =~= kept_before@.push(step.last()));
            }
            i += 1;
        }
        assert(before.take(i as int) =~= before);
        self.entries = kept;
        assert(self@ == JsonMap { entries: kept }@);
    }

    /// Whether the object has no field.
    pub fn is_empty(&self) -> (r: bool)
        ensures
            r == (self@.len() == 0),
    {
        self.entries.len() == 0
    }
}

impl JsonValue {
    /// An object.
    pub fn object(map: JsonMap) -> (r: JsonValue)
        ensures
            r@ == JsonView::Object(map@),
    {
        JsonValue::Object(map)
    }

    /// A whole number from zero up.
    pub fn unsigned(n: u64) -> (r: JsonValue)
        ensures
            r@ == JsonView::Number(NumberView::Unsigned(n)),
    {
        JsonValue::Number(JsonNumber::Unsigned(n))
    }

    /// A list of values.
    pub fn array(items: Vec<JsonValue>) -> (r: JsonValue)
        ensures
            r@ == JsonView::Array(json_views(items@)),
    {
        let r = JsonValue::Array(items);
        assert(r@->Array_0 =~= json_views(items@));
        r
    }

    /// A text value.
    pub fn text(s: &str) -> (r: JsonValue)
        ensures
            r@ == JsonView::Text(s@),
    {
        JsonValue::Text(s.to_owned())
    }

    /// The field `key`, where the value is an object that has it.
    pub fn get(&self, key: &str) -> (r: Option<&JsonValue>)
        ensures
            match r {
                Some(v) => member(self@, key@) == Some(v@),
                None => member(self@, key@) is None,
            },
    {
        match self {
            JsonValue::Object(map) => map.get(key),
            _ => None,
        }
    }

    /// The text, where the value is one.
    pub fn as_str(&self) -> (r: Option<&String>)
        ensures
            match r {
                Some(s) => self@ == JsonView::Text(s@),
                None => !(self@ is Text),
            },
    {
        match self {
            JsonValue::Text(s) => Some(s),
            _ => None,
        }
    }

    /// The truth value, where the value is one.
    pub fn as_bool(&self) -> (r: Option<bool>)
        ensures
            match r {
                Some(b) => self@ == JsonView::Bool(b),
                None => !(self@ is Bool),
            },
    {
        match self {
            JsonValue::Bool(b) => Some(*b),
            _ => None,
        }
    }

    /// The number, where the value is a whole number from zero up.
    pub fn as_u64(&self) -> (r: Option<u64>)
        ensures
            match r {
                Some(n) => self@ == JsonView::Number(NumberView::Unsigned(n)),
                None => !(self@ matches JsonView::Number(NumberView::Unsigned(_))),
            },
    {
        match self {
            JsonValue::Number(JsonNumber::Unsigned(n)) => Some(*n),
            _ => None,
        }
    }

    /// The text of the field `key`, where there is one and it is a text.
    pub fn get_str(&self, key: &str) -> (r: Option<String>)
        ensures
            match r {
                Some(s) => as_text(member(self@, key@)) == Some(s@),
                None => as_text(member(self@, key@)) is None,
            },
    {
        match self.get(key) {
            Some(value) => match value.as_str() {
                Some(s) => Some(s.clone()),
                None => None,
            },
            None => None,
        }
    }

    /// Whether the value is an object.
    pub fn is_object(&self) -> (r: bool)
        ensures
            r == (self@ is Object),
    {
        matches!(self, JsonValue::Object(_))
    }

    /// Whether the value is null.
    pub fn is_null(&self) -> (r: bool)
        ensures
            r == (self@ is Null),
    {
        matches!(self, JsonValue::Null)
    }
}

// ------------------------------------------------------------ text of values

/// `serde_json::Value`, which the reader and the writers below go through.
#[verifier::external_type_specification]
#[verifier::external_body]
pub struct ExSerdeValue(serde_json::Value);

/// What `serde_json::from_str` makes of a text: a value, or the message of its
/// error.
pub uninterp spec fn parsed_json(text: Seq<char>) -> Result<JsonView, Seq<char>>;

/// What `serde_json::to_string` writes of a value.
pub uninterp spec fn json_text(value: JsonView) -> Seq<char>;

/// What `serde_json::to_string_pretty` writes of a value.
pub uninterp spec fn json_pretty_text(value: JsonView) -> Seq<char>;

/// The same value in the library's type, variant for variant.
#[verifier::external_body]
fn from_serde(value: Value) -> JsonValue {
    match value {
        Value::Null => JsonValue::Null,
        Value::Bool(b) => JsonValue::Bool(b),
        Value::Number(n) => JsonValue::Number(
            n.as_u64().map(JsonNumber::Unsigned).or(n.as_i64().map(JsonNumber::Negative)).unwrap_or(
                JsonNumber::Decimal(n.to_string()))),
        Value::String(s) => JsonValue::Text(s),
        Value::Array(items) => JsonValue::Array(items.into_iter().map(from_serde).collect()),
        Value::Object(map) => JsonValue::Object(
            JsonMap { entries: map.into_iter().map(|(k, v)| (k, from_serde(v))).collect() }),
    }
}

/// The same value in `serde_json`'s type, variant for variant; of two entries
/// under one key the first counts.
#[verifier::external_body]
fn to_serde(value: &JsonValue) -> Value {
    match value {
        JsonValue::Null => Value::Null,
        JsonValue::Bool(b) => Value::Bool(*b),
        JsonValue::Number(JsonNumber::Unsigned(u)) => Value::from(*u),
        JsonValue::Number(JsonNumber::Negative(i)) => Value::from(*i),
        JsonValue::Number(JsonNumber::Decimal(s)) => serde_json::from_str(s).unwrap_or_default(),
        JsonValue::Text(s) => Value::String(s.clone()),
        JsonValue::Array(items) => Value::Array(items.iter().map(to_serde).collect()),
        JsonValue::Object(map) => Value::Object(
            map.entries.iter().rev().map(|(k, v)| (k.clone(), to_serde(v))).collect()),
    }
}

/// `serde_json::from_str` to a value of any shape. It depends on the text alone;
/// an error is handed on as its message.
#[verifier::external_body]
pub(crate) fn parse_json(text: &str) -> (r: Result<JsonValue, String>)
    ensures
        match r {
            Ok(v) => parsed_json(text@) == Ok::<JsonView, Seq<char>>(v@),
            Err(e) => parsed_json(text@) == Err::<JsonView, Seq<char>>(e@),
        },
{
    serde_json::from_str::<serde_json::Value>(text).map(from_serde).map_err(|e| e.to_string())
}

/// `serde_json::to_string`: the compact text of a value, which depends on the
/// value alone.
#[verifier::external_body]
pub(crate) fn render_json(value: &JsonValue) -> (r: String)
    ensures
        r@ == json_text(value@),
{
    serde_json::to_string(&to_serde(value)).unwrap_or_default()
}

/// `serde_json::to_string_pretty`: the indented text of a value, which depends
/// on the value alone.
#[verifier::external_body]
pub(crate) fn render_json_pretty(value: &JsonValue) -> (r: String)
    ensures
        r@ == json_pretty_text(value@),
{
    serde_json::to_string_pretty(&to_serde(value)).unwrap_or_default()
}

impl JsonValue {
    /// The compact text of the value.
    pub fn to_text(&self) -> (r: String)
        ensures
            r@ == json_text(self@),
    {
        render_json(self)
    }
}

/// What is written under a key that was not used before is read back.
pub proof fn fields_are_read_back(entries: Seq<(Seq<char>, JsonView)>, i: int)
    requires
        0 <= i < entries.len(),
        forall|j: int| 0 <= j < i ==> (#[trigger] entries[j]).0 != entries[i].0,
    ensures
        field(entries, entries[i].0) == Some(entries[i].1),
{
    lemma_field_at(entries, entries[i].0, i);
}

} // verus!

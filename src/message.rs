use crate::placeholder::pairs_view;
use serde_json::Value;
use vstd::prelude::*;

verus! {

/// One JSON value, by kind. A string keeps its text, a number the value
/// that it has as a non-negative integer that fits `u64` (if it has one),
/// a boolean its value; arrays and objects keep nothing.
#[derive(Debug)]
pub enum JsonValue {
    String(String),
    Number(Option<u64>),
    Bool(bool),
    Null,
    Array,
    Object,
}

/// The model of a [`JsonValue`].
pub enum JsonModel {
    String(Seq<char>),
    Number(Option<u64>),
    Bool(bool),
    Null,
    Array,
    Object,
}

impl View for JsonValue {
    type V = JsonModel;

    open spec fn view(&self) -> JsonModel {
        match self {
            JsonValue::String(s) => JsonModel::String(s@),
            JsonValue::Number(n) => JsonModel::Number(*n),
            JsonValue::Bool(b) => JsonModel::Bool(*b),
            JsonValue::Null => JsonModel::Null,
            JsonValue::Array => JsonModel::Array,
            JsonValue::Object => JsonModel::Object,
        }
    }
}

impl JsonValue {
    /// The text of a string value.
    pub fn as_str(&self) -> (r: Option<&str>)
        ensures
            match self@ {
                JsonModel::String(s) => r is Some && r->0@ == s,
                _ => r is None,
            },
    {
        match self {
            JsonValue::String(s) => Some(s.as_str()),
            _ => None,
        }
    }

    /// The value of a number that is a non-negative integer fitting `u64`.
    pub fn as_u64(&self) -> (r: Option<u64>)
        ensures
            match self@ {
                JsonModel::Number(n) => r == n,
                _ => r is None,
            },
    {
        match self {
            JsonValue::Number(n) => *n,
            _ => None,
        }
    }
}

/// No key stands twice in a list of pairs.
pub open spec fn keys_distinct<V>(s: Seq<(Seq<char>, V)>) -> bool {
    forall|a: int, b: int| 0 <= a < b < s.len() ==> #[trigger] s[a].0 != #[trigger] s[b].0
}

/// The model of a list of fields of a JSON object.
pub open spec fn fields_view(fields: Seq<(String, JsonValue)>) -> Seq<(Seq<char>, JsonModel)> {
    fields.map_values(|p: (String, JsonValue)| (p.0@, p.1@))
}

/// The fields of a JSON object, in the order in which they were parsed.
pub struct JsonObject {
    fields: Vec<(String, JsonValue)>,
}

impl View for JsonObject {
    type V = Seq<(Seq<char>, JsonModel)>;

    closed spec fn view(&self) -> Seq<(Seq<char>, JsonModel)> {
        fields_view(self.fields@)
    }
}

impl JsonObject {
    /// Each key stands once.
    pub open spec fn wf(&self) -> bool {
        keys_distinct(self@)
    }

    pub fn len(&self) -> (r: usize)
        ensures
            r == self@.len(),
    {
        self.fields.len()
    }

    /// The value of the field named `key`.
    pub fn get(&self, key: &str) -> (r: Option<&JsonValue>)
        ensures
            r is Some <==> exists|i: int| 0 <= i < self@.len() && #[trigger] self@[i].0 == key@,
            r matches Some(v) ==> exists|i: int|
                0 <= i < self@.len() && #[trigger] self@[i].0 == key@ && self@[i].1 == v@,
    {
        let k = key.to_string();
        let mut i: usize = 0;
        while i < self.fields.len()
            invariant
                k@ == key@,
                i <= self.fields@.len(),
                forall|q: int| 0 <= q < i ==> #[trigger] self@[q].0 != key@,
            decreases self.fields@.len() - i,
        {
            if self.fields[i].0 == k {
                assert(self@[i as int].0 == key@);
                return Some(&self.fields[i].1);
            }
            i = i + 1;
        }
        None
    }

    /// The fields, in order.
    pub fn fields(&self) -> (r: &Vec<(String, JsonValue)>)
        ensures
            fields_view(r@) == self@,
    {
        &self.fields
    }
}

/// What a text parses to as JSON: `None` when it is not well-formed JSON;
/// `Some(None)` when it is a JSON value other than an object; otherwise the
/// object's fields.
pub uninterp spec fn json_top_level(text: Seq<char>) -> Option<Option<Seq<(Seq<char>, JsonModel)>>>;

/// The model of what `parse_message` hands back on success.
pub open spec fn top_level_view(o: Option<JsonObject>) -> Option<Seq<(Seq<char>, JsonModel)>> {
    match o {
        Some(obj) => Some(obj@),
        None => None,
    }
}

#[verifier::external_type_specification]
#[verifier::external_body]
pub struct ExJsonError(serde_json::Error);

/// Relies on serde_json::from_str (into serde_json::Value) to parse a whole
/// text as one JSON value; it fails exactly on text that is not one JSON
/// value. The fields of an object come from serde_json's `Map`, which holds
/// each key once.
#[verifier::external_body]
fn parse_json(msg: &str) -> (r: Result<Option<JsonObject>, serde_json::Error>)
    ensures
        r is Ok <==> json_top_level(msg@) is Some,
        r matches Ok(o) ==> Some(top_level_view(o)) == json_top_level(msg@),
        r matches Ok(Some(o)) ==> o.wf(),
{
    let Value::Object(m) = serde_json::from_str::<Value>(msg)? else { return Ok(None) };
    let fields = m.into_iter().map(|(k, v)| (k, match v {
        Value::String(s) => JsonValue::String(s),
        Value::Number(n) => JsonValue::Number(n.as_u64()),
        Value::Bool(b) => JsonValue::Bool(b),
        Value::Null => JsonValue::Null,
        Value::Array(_) => JsonValue::Array,
        Value::Object(_) => JsonValue::Object,
    })).collect();
    Ok(Some(JsonObject { fields }))
}

/// Why a message could not be decoded.
#[derive(Debug, PartialEq, Eq)]
pub enum DecodeError {
    /// The message is not well-formed JSON.
    Malformed,
}

/// Parses a message as JSON: the fields of an object, `None` for any other
/// JSON value, an error for text that is not JSON.
pub fn parse_message(msg: &str) -> (r: Result<Option<JsonObject>, DecodeError>)
    ensures
        match json_top_level(msg@) {
            None => r == Err::<Option<JsonObject>, DecodeError>(DecodeError::Malformed),
            Some(t) => r is Ok && top_level_view(r->Ok_0) == t,
        },
        r matches Ok(Some(o)) ==> o.wf(),
{
    match parse_json(msg) {
        Ok(o) => Ok(o),
        Err(_) => Err(DecodeError::Malformed),
    }
}

/// The string-valued fields of an object, as key/text pairs, in order; a
/// field of any other kind is left out.
pub open spec fn string_fields(fields: Seq<(Seq<char>, JsonModel)>) -> Seq<(Seq<char>, Seq<char>)>
    decreases fields.len(),
{
    if fields.len() == 0 {
        Seq::empty()
    } else {
        let rest = string_fields(fields.drop_last());
        match fields.last().1 {
            JsonModel::String(s) => rest.push((fields.last().0, s)),
            _ => rest,
        }
    }
}

proof fn lemma_string_fields_keys(fields: Seq<(Seq<char>, JsonModel)>)
    ensures
        forall|a: int|
            0 <= a < string_fields(fields).len() ==> exists|j: int|
                0 <= j < fields.len() && #[trigger] fields[j].0 == #[trigger] string_fields(
                    fields,
                )[a].0,
    decreases fields.len(),
{
    if fields.len() > 0 {
        let rest = fields.drop_last();
        lemma_string_fields_keys(rest);
        assert forall|a: int| 0 <= a < string_fields(fields).len() implies exists|j: int|
            0 <= j < fields.len() && #[trigger] fields[j].0 == #[trigger] string_fields(
                fields,
            )[a].0 by {
            if a < string_fields(rest).len() {
                let j = choose|j: int|
                    0 <= j < rest.len() && #[trigger] rest[j].0 == #[trigger] string_fields(
                        rest,
                    )[a].0;
                assert(fields[j].0 == string_fields(fields)[a].0);
            } else {
                assert(fields[fields.len() - 1].0 == string_fields(fields)[a].0);
            }
        }
    }
}

/// The string-valued fields of `fields`, as key/text pairs in order; every
/// field of another kind is dropped.
pub fn string_fields_of(fields: &Vec<(String, JsonValue)>) -> (r: Vec<(String, String)>)
    ensures
        pairs_view(r@) == string_fields(fields_view(fields@)),
        keys_distinct(fields_view(fields@)) ==> keys_distinct(pairs_view(r@)),
{
    let ghost f = fields_view(fields@);
    let mut out: Vec<(String, String)> = Vec::new();
    let mut i: usize = 0;
    while i < fields.len()
        invariant
            f == fields_view(fields@),
            i <= f.len(),
            pairs_view(out@) == string_fields(f.take(i as int)),
            keys_distinct(f) ==> keys_distinct(pairs_view(out@)),
        decreases f.len() - i,
    {
        let ghost before = pairs_view(out@);
        assert(f.take(i + 1).drop_last() =~= f.take(i as int));
        match &fields[i].1 {
            JsonValue::String(s) => {
                out.push((fields[i].0.clone(), s.clone()));
                proof {
                    assert(pairs_view(out@) =~= before.push((f[i as int].0, s@)));
                    if keys_distinct(f) {
                        lemma_string_fields_keys(f.take(i as int));
                        assert forall|a: int, b: int|
                            0 <= a < b < pairs_view(out@).len() implies #[trigger] pairs_view(
                            out@,
                        )[a].0 != #[trigger] pairs_view(out@)[b].0 by {
                            if b == before.len() {
                                let j = choose|j: int|
                                    0 <= j < f.take(i as int).len() && #[trigger] f.take(
                                        i as int,
                                    )[j].0 == #[trigger] string_fields(f.take(i as int))[a].0;
                                assert(f[j].0 != f[i as int].0);
                            }
                        }
                    }
                }
            },
            _ => {},
        }
        i = i + 1;
    }
    assert(f.take(f.len() as int) =~= f);
    out
}

/// A decoded message: the string-valued fields of a JSON object, each key once.
#[derive(Debug)]
pub struct MessageMap {
    entries: Vec<(String, String)>,
}

impl View for MessageMap {
    type V = Seq<(Seq<char>, Seq<char>)>;

    closed spec fn view(&self) -> Seq<(Seq<char>, Seq<char>)> {
        pairs_view(self.entries@)
    }
}

impl MessageMap {
    /// Each key stands once.
    pub open spec fn wf(&self) -> bool {
        keys_distinct(self@)
    }

    /// The string-valued fields of a parsed object.
    pub fn from_object(obj: &JsonObject) -> (r: MessageMap)
        requires
            obj.wf(),
        ensures
            r@ == string_fields(obj@),
            r.wf(),
    {
        MessageMap { entries: string_fields_of(obj.fields()) }
    }

    /// The map of no fields.
    pub fn empty() -> (r: MessageMap)
        ensures
            r@ == Seq::<(Seq<char>, Seq<char>)>::empty(),
            r.wf(),
    {
        let r = MessageMap { entries: Vec::new() };
        assert(r@ =~= Seq::<(Seq<char>, Seq<char>)>::empty());
        r
    }

    pub fn len(&self) -> (r: usize)
        ensures
            r == self@.len(),
    {
        self.entries.len()
    }

    pub fn is_empty(&self) -> (r: bool)
        ensures
            r == (self@.len() == 0),
    {
        self.entries.len() == 0
    }

    /// The text of the field named `key`.
    pub fn get(&self, key: &str) -> (r: Option<&String>)
        ensures
            r is Some <==> exists|i: int| 0 <= i < self@.len() && #[trigger] self@[i].0 == key@,
            r matches Some(v) ==> exists|i: int|
                0 <= i < self@.len() && #[trigger] self@[i].0 == key@ && self@[i].1 == v@,
    {
        let k = key.to_string();
        let mut i: usize = 0;
        while i < self.entries.len()
            invariant
                k@ == key@,
                i <= self.entries@.len(),
                forall|q: int| 0 <= q < i ==> #[trigger] self@[q].0 != key@,
            decreases self.entries@.len() - i,
        {
            if self.entries[i].0 == k {
                assert(self@[i as int].0 == key@);
                return Some(&self.entries[i].1);
            }
            i = i + 1;
        }
        None
    }

    /// The key/text pairs, in order.
    pub fn into_pairs(self) -> (r: Vec<(String, String)>)
        ensures
            pairs_view(r@) == self@,
    {
        self.entries
    }
}

/// What a message decodes to: `None` when it is not well-formed JSON; no
/// fields when it is JSON but not an object; otherwise the object's
/// string-valued fields.
pub open spec fn decoded(text: Seq<char>) -> Option<Seq<(Seq<char>, Seq<char>)>> {
    match json_top_level(text) {
        None => None,
        Some(None) => Some(Seq::empty()),
        Some(Some(fields)) => Some(string_fields(fields)),
    }
}

/// Decodes a message into its string-valued top-level fields. Malformed
/// JSON is an error; a JSON value that is not an object has no fields.
pub fn decode(msg: &str) -> (r: Result<MessageMap, DecodeError>)
    ensures
        r is Err <==> decoded(msg@) is None,
        r matches Err(e) ==> e == DecodeError::Malformed,
        r matches Ok(m) ==> m@ == decoded(msg@)->0 && m.wf(),
{
    match parse_message(msg) {
        Ok(Some(obj)) => Ok(MessageMap::from_object(&obj)),
        Ok(None) => Ok(MessageMap::empty()),
        Err(e) => Err(e),
    }
}

/// The fields that a message offers to fill a pattern: `None` when it does
/// not decode or has no string-valued field.
pub open spec fn usable_fields(text: Seq<char>) -> Option<Seq<(Seq<char>, Seq<char>)>> {
    match decoded(text) {
        Some(fields) => if fields.len() > 0 {
            Some(fields)
        } else {
            None
        },
        None => None,
    }
}

/// Decodes a message; `None` when it does not decode or no field is left.
pub fn map_message(msg: &str) -> (r: Option<MessageMap>)
    ensures
        r is Some <==> usable_fields(msg@) is Some,
        r matches Some(m) ==> m@ == usable_fields(msg@)->0 && m.wf(),
{
    match decode(msg) {
        Ok(m) => if m.is_empty() {
            None
        } else {
            Some(m)
        },
        Err(_) => None,
    }
}

} // verus!

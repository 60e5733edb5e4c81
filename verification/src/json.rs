//! A plain model of JSON documents, with lookups specified over it; parsing and
//! printing are done by `serde_json`.
use vstd::prelude::*;

use crate::text::owned;

verus! {

/// A JSON number, split as `serde_json::Number` splits it.
#[derive(Debug)]
pub enum JsonNumber {
    /// A non-negative integer.
    PosInt(u64),
    /// A negative integer.
    NegInt(i64),
    /// Any other number, held as its decimal text.
    Float(String),
}

/// A JSON document.
#[derive(Debug)]
pub enum JsonValue {
    Null,
    Bool(bool),
    Number(JsonNumber),
    Str(String),
    Array(Vec<JsonValue>),
    /// Members in document order.
    Object(Vec<(String, JsonValue)>),
}

/// The mathematical content of a JSON document.
pub enum Json {
    Null,
    Bool(bool),
    PosInt(u64),
    NegInt(i64),
    Float(Seq<char>),
    Str(Seq<char>),
    Array(Seq<Json>),
    Object(Seq<(Seq<char>, Json)>),
}

/// The content of a document.
pub open spec fn json_model(v: JsonValue) -> Json
    decreases v, 0nat,
{
    match v {
        JsonValue::Null => Json::Null,
        JsonValue::Bool(b) => Json::Bool(b),
        JsonValue::Number(JsonNumber::PosInt(n)) => Json::PosInt(n),
        JsonValue::Number(JsonNumber::NegInt(n)) => Json::NegInt(n),
        JsonValue::Number(JsonNumber::Float(t)) => Json::Float(t@),
        JsonValue::Str(s) => Json::Str(s@),
        JsonValue::Array(items) => Json::Array(items_model(items@)),
        JsonValue::Object(members) => Json::Object(members_model(members@)),
    }
}

/// The contents of a sequence of documents.
pub open spec fn items_model(s: Seq<JsonValue>) -> Seq<Json>
    decreases s, 1nat,
{
    if s.len() == 0 {
        Seq::empty()
    } else {
        items_model(s.drop_last()).push(json_model(s.last()))
    }
}

/// The contents of a sequence of object members.
pub open spec fn members_model(s: Seq<(String, JsonValue)>) -> Seq<(Seq<char>, Json)>
    decreases s, 1nat,
{
    if s.len() == 0 {
        Seq::empty()
    } else {
        members_model(s.drop_last()).push((s.last().0@, json_model(s.last().1)))
    }
}

impl View for JsonValue {
    type V = Json;

    open spec fn view(&self) -> Json {
        json_model(*self)
    }
}

/// `items_model` maps element by element.
pub proof fn lemma_items_model(s: Seq<JsonValue>)
    ensures
        items_model(s).len() == s.len(),
        forall|i: int| 0 <= i < s.len() ==> #[trigger] items_model(s)[i] == json_model(s[i]),
    decreases s.len(),
{
    if s.len() > 0 {
        lemma_items_model(s.drop_last());
    }
}

/// `members_model` maps member by member.
pub proof fn lemma_members_model(s: Seq<(String, JsonValue)>)
    ensures
        members_model(s).len() == s.len(),
        forall|i: int|
            0 <= i < s.len() ==> #[trigger] members_model(s)[i] == (s[i].0@, json_model(s[i].1)),
    decreases s.len(),
{
    if s.len() > 0 {
        lemma_members_model(s.drop_last());
    }
}

impl Clone for JsonNumber {
    fn clone(&self) -> (r: Self)
        ensures
            json_model(JsonValue::Number(r)) == json_model(JsonValue::Number(*self)),
    {
        match self {
            JsonNumber::PosInt(n) => JsonNumber::PosInt(*n),
            JsonNumber::NegInt(n) => JsonNumber::NegInt(*n),
            JsonNumber::Float(t) => JsonNumber::Float(t.clone()),
        }
    }
}

impl Clone for JsonValue {
    fn clone(&self) -> (r: Self)
        ensures
            r@ == self@,
    {
        json_clone(self)
    }
}

/// A copy of a document.
pub fn json_clone(v: &JsonValue) -> (r: JsonValue)
    ensures
        r@ == v@,
    decreases *v,
{
    match v {
        JsonValue::Null => JsonValue::Null,
        JsonValue::Bool(b) => JsonValue::Bool(*b),
        JsonValue::Number(n) => JsonValue::Number(n.clone()),
        JsonValue::Str(s) => JsonValue::Str(s.clone()),
        JsonValue::Array(items) => {
            let mut out: Vec<JsonValue> = Vec::new();
            let mut i: usize = 0;
            while i < items.len()
                invariant
                    i <= items.len(),
                    *v == JsonValue::Array(*items),
                    items_model(out@) == items_model(items@.subrange(0, i as int)),
                decreases items.len() - i,
            {
                proof {
                    assert(decreases_to!(*v => (*v)->Array_0));
                    vstd::std_specs::vec::axiom_vec_index_decreases(*items, i as int);
                    assert(decreases_to!(*v => items[i as int]));
                }
                let c = json_clone(&items[i]);
                let ghost before = out@;
                out.push(c);
                assert(out@.drop_last() =~= before);
                assert(items@.subrange(0, i + 1).drop_last() =~= items@.subrange(0, i as int));
                i = i + 1;
            }
            assert(items@.subrange(0, i as int) =~= items@);
            JsonValue::Array(out)
        },
        JsonValue::Object(members) => {
            let mut out: Vec<(String, JsonValue)> = Vec::new();
            let mut i: usize = 0;
            while i < members.len()
                invariant
                    i <= members.len(),
                    *v == JsonValue::Object(*members),
                    members_model(out@) == members_model(members@.subrange(0, i as int)),
                decreases members.len() - i,
            {
                proof {
                    assert(decreases_to!(*v => (*v)->Object_0));
                    vstd::std_specs::vec::axiom_vec_index_decreases(*members, i as int);
                    assert(decreases_to!(members[i as int] => members[i as int].1));
                    assert(decreases_to!(*v => members[i as int].1));
                }
                let k = members[i].0.clone();
                let c = json_clone(&members[i].1);
                let ghost before = out@;
                out.push((k, c));
                assert(out@.drop_last() =~= before);
                assert(members@.subrange(0, i + 1).drop_last() =~= members@.subrange(0, i as int));
                i = i + 1;
            }
            assert(members@.subrange(0, i as int) =~= members@);
            JsonValue::Object(out)
        },
    }
}

/// The value of the first member named `key`.
pub open spec fn member(members: Seq<(Seq<char>, Json)>, key: Seq<char>) -> Option<Json>
    decreases members.len(),
{
    if members.len() == 0 {
        None
    } else if members[0].0 == key {
        Some(members[0].1)
    } else {
        member(members.drop_first(), key)
    }
}

/// `value.get(key)`: the member `key` of an object; `None` for other values.
pub open spec fn json_get(v: Json, key: Seq<char>) -> Option<Json> {
    match v {
        Json::Object(members) => member(members, key),
        _ => None,
    }
}

/// `value[key]`: the member `key` of an object, `Null` where there is none.
pub open spec fn json_field(v: Json, key: Seq<char>) -> Json {
    match json_get(v, key) {
        Some(x) => x,
        None => Json::Null,
    }
}

/// `value[i]`: the element `i` of an array, `Null` where there is none.
pub open spec fn json_item(v: Json, i: int) -> Json {
    match v {
        Json::Array(items) => if 0 <= i < items.len() {
            items[i]
        } else {
            Json::Null
        },
        _ => Json::Null,
    }
}

/// The text of a string value.
pub open spec fn json_as_str(v: Json) -> Option<Seq<char>> {
    match v {
        Json::Str(s) => Some(s),
        _ => None,
    }
}

/// A non-negative integer value.
pub open spec fn json_as_u64(v: Json) -> Option<u64> {
    match v {
        Json::PosInt(n) => Some(n),
        _ => None,
    }
}

impl JsonValue {
    /// `Value::get`: the member `key` of an object.
    pub fn get(&self, key: &str) -> (r: Option<&JsonValue>)
        ensures
            r matches Some(x) ==> json_get(self@, key@) == Some(x@),
            r is None ==> json_get(self@, key@) is None,
    {
        match self {
            JsonValue::Object(members) => {
                let k = owned(key);
                let ghost ms = members_model(members@);
                proof {
                    lemma_members_model(members@);
                }
                let mut i: usize = 0;
                assert(ms.skip(0) =~= ms);
                while i < members.len()
                    invariant
                        i <= members.len(),
                        k@ == key@,
                        *self == JsonValue::Object(*members),
                        ms == members_model(members@),
                        ms.len() == members@.len(),
                        forall|j: int|
                            0 <= j < members@.len() ==> #[trigger] ms[j] == (members@[j].0@, json_model(members@[j].1)),
                        member(ms, key@) == member(ms.skip(i as int), key@),
                    decreases members.len() - i,
                {
                    assert(ms.skip(i as int).drop_first() =~= ms.skip(i + 1));
                    assert(ms.skip(i as int)[0] == ms[i as int]);
                    if members[i].0 == k {
                        assert(member(ms.skip(i as int), key@) == Some(json_model(members@[i as int].1)));
                        return Some(&members[i].1);
                    }
                    i = i + 1;
                }
                None
            },
            _ => None,
        }
    }

    /// `value[key]`: a copy of the member `key`, or `Null`.
    pub fn field(&self, key: &str) -> (r: JsonValue)
        ensures
            r@ == json_field(self@, key@),
    {
        match self.get(key) {
            Some(x) => x.clone(),
            None => JsonValue::Null,
        }
    }

    /// `value[i]`: the element `i` of an array.
    pub fn item(&self, i: usize) -> (r: Option<&JsonValue>)
        ensures
            r matches Some(x) ==> json_item(self@, i as int) == x@ && self@ is Array,
            r is None ==> json_item(self@, i as int) == Json::Null,
    {
        match self {
            JsonValue::Array(items) => {
                proof {
                    lemma_items_model(items@);
                }
                if i < items.len() {
                    Some(&items[i])
                } else {
                    None
                }
            },
            _ => None,
        }
    }

    /// `Value::as_str`: the text of a string value.
    pub fn as_str(&self) -> (r: Option<&String>)
        ensures
            r matches Some(s) ==> json_as_str(self@) == Some(s@),
            r is None ==> json_as_str(self@) is None,
    {
        match self {
            JsonValue::Str(s) => Some(s),
            _ => None,
        }
    }

    /// `Value::as_u64`: a non-negative integer value.
    pub fn as_u64(&self) -> (r: Option<u64>)
        ensures
            r == json_as_u64(self@),
    {
        match self {
            JsonValue::Number(JsonNumber::PosInt(n)) => Some(*n),
            _ => None,
        }
    }

    /// `Value::as_array`: the elements of an array value.
    pub fn as_array(&self) -> (r: Option<&Vec<JsonValue>>)
        ensures
            r matches Some(items) ==> self@ == Json::Array(items_model(items@)),
            r is None ==> !(self@ is Array),
    {
        match self {
            JsonValue::Array(items) => Some(items),
            _ => None,
        }
    }
}

/// A JSON string value with the text of `s`.
pub fn string_value(s: &str) -> (r: JsonValue)
    ensures
        r@ == Json::Str(s@),
{
    JsonValue::Str(owned(s))
}

/// A member `key: value` of an object.
pub fn entry(key: &str, value: JsonValue) -> (r: (String, JsonValue))
    ensures
        r.0@ == key@,
        r.1@ == value@,
{
    (owned(key), value)
}

/// The document type of `serde_json`, carried opaquely between conversions.
#[verifier::external_type_specification]
#[verifier::external_body]
pub struct ExSerdeJsonValue(serde_json::Value);

/// An object with one member.
pub fn object1(a: (String, JsonValue)) -> (r: JsonValue)
    ensures
        r@ == Json::Object(seq![(a.0@, a.1@)]),
{
    let ghost sa = (a.0@, a.1@);
    let mut v: Vec<(String, JsonValue)> = Vec::new();
    v.push(a);
    proof {
        lemma_members_model(v@);
        assert(members_model(v@) =~= seq![sa]);
    }
    JsonValue::Object(v)
}

/// An array of JSON strings with the given texts.
pub fn string_array(items: Vec<&str>) -> (r: JsonValue)
    ensures
        r@ == Json::Array(items@.map_values(|s: &str| Json::Str(s@))),
{
    let mut out: Vec<JsonValue> = Vec::new();
    let mut i: usize = 0;
    while i < items.len()
        invariant
            i <= items.len(),
            items_model(out@) == items@.subrange(0, i as int).map_values(|s: &str| Json::Str(s@)),
        decreases items.len() - i,
    {
        let ghost before = out@;
        out.push(string_value(items[i]));
        assert(out@.drop_last() =~= before);
        assert(items@.subrange(0, i + 1).map_values(|s: &str| Json::Str(s@)) =~= items@.subrange(0, i as int).map_values(|s: &str| Json::Str(s@)).push(Json::Str(items@[i as int]@)));
        i = i + 1;
    }
    assert(items@.subrange(0, items@.len() as int) =~= items@);
    JsonValue::Array(out)
}

/// An object with the given members, in order.
pub fn object4(
    a: (String, JsonValue),
    b: (String, JsonValue),
    c: (String, JsonValue),
    d: (String, JsonValue),
) -> (r: JsonValue)
    ensures
        r@ == Json::Object(seq![(a.0@, a.1@), (b.0@, b.1@), (c.0@, c.1@), (d.0@, d.1@)]),
{
    let ghost sa = (a.0@, a.1@);
    let ghost sb = (b.0@, b.1@);
    let ghost sc = (c.0@, c.1@);
    let ghost sd = (d.0@, d.1@);
    let mut v: Vec<(String, JsonValue)> = Vec::new();
    v.push(a);
    v.push(b);
    v.push(c);
    v.push(d);
    proof {
        lemma_members_model(v@);
        assert(members_model(v@) =~= seq![sa, sb, sc, sd]);
    }
    JsonValue::Object(v)
}

/// An object with the given members, in order.
pub fn object3(a: (String, JsonValue), b: (String, JsonValue), c: (String, JsonValue)) -> (r: JsonValue)
    ensures
        r@ == Json::Object(seq![(a.0@, a.1@), (b.0@, b.1@), (c.0@, c.1@)]),
{
    let ghost sa = (a.0@, a.1@);
    let ghost sb = (b.0@, b.1@);
    let ghost sc = (c.0@, c.1@);
    let mut v: Vec<(String, JsonValue)> = Vec::new();
    v.push(a);
    v.push(b);
    v.push(c);
    proof {
        lemma_members_model(v@);
        assert(members_model(v@) =~= seq![sa, sb, sc]);
    }
    JsonValue::Object(v)
}

/// An object with the given members, in order.
pub fn object2(a: (String, JsonValue), b: (String, JsonValue)) -> (r: JsonValue)
    ensures
        r@ == Json::Object(seq![(a.0@, a.1@), (b.0@, b.1@)]),
{
    let ghost sa = (a.0@, a.1@);
    let ghost sb = (b.0@, b.1@);
    let mut v: Vec<(String, JsonValue)> = Vec::new();
    v.push(a);
    v.push(b);
    proof {
        lemma_members_model(v@);
        assert(members_model(v@) =~= seq![sa, sb]);
    }
    JsonValue::Object(v)
}

/// The empty object `{}`.
pub fn empty_object() -> (r: JsonValue)
    ensures
        r@ == Json::Object(Seq::empty()),
{
    let v: Vec<(String, JsonValue)> = Vec::new();
    proof {
        assert(members_model(v@) =~= Seq::empty());
    }
    JsonValue::Object(v)
}

/// The names of an object's members are all different.
pub open spec fn keys_distinct(ms: Seq<(Seq<char>, Json)>) -> bool {
    forall|i: int, j: int| 0 <= i < j < ms.len() ==> #[trigger] ms[i].0 != #[trigger] ms[j].0
}

/// How deep `serde_json` may nest a document that it reads back: well within
/// its parser's limit of 128 levels.
pub open spec fn depth_bound() -> nat {
    64
}

/// A document that `serde_json` prints and reads back unchanged: no member
/// name twice in an object, only integer numbers (those held as negative
/// below zero), and at most `depth` levels of arrays and objects.
pub open spec fn plain_json(j: Json, depth: nat) -> bool
    decreases j,
{
    match j {
        Json::Null => true,
        Json::Bool(_) => true,
        Json::PosInt(_) => true,
        Json::NegInt(n) => n < 0,
        Json::Float(_) => false,
        Json::Str(_) => true,
        Json::Array(items) => depth > 0 && forall|i: int|
            0 <= i < items.len() ==> plain_json(#[trigger] items[i], (depth - 1) as nat),
        Json::Object(ms) => depth > 0 && keys_distinct(ms) && forall|i: int|
            0 <= i < ms.len() ==> plain_json(#[trigger] ms[i].1, (depth - 1) as nat),
    }
}

/// What `serde_json::from_str::<serde_json::Value>` gives for a text: the
/// document, or `None` where the text is not JSON.
pub uninterp spec fn spec_json_parse(text: Seq<char>) -> Option<Json>;

/// What `serde_json::Value`'s `Display` prints for a document (compact form).
pub uninterp spec fn spec_json_text(v: Json) -> Seq<char>;

/// What `serde_json::Value`'s alternate `Display` (`{:#}`) prints for a document.
pub uninterp spec fn spec_json_text_pretty(v: Json) -> Seq<char>;

/// The error type of `serde_json`, carried opaquely.
#[verifier::external_type_specification]
#[verifier::external_body]
pub struct ExSerdeJsonError(serde_json::Error);

/// Parses `text` with `serde_json::from_str` into a `serde_json::Value` and
/// converts it one for one; the contract only names the result.
#[verifier::external_body]
pub(crate) fn json_parse(text: &str) -> (r: Result<JsonValue, serde_json::Error>)
    ensures
        r matches Ok(v) ==> spec_json_parse(text@) == Some(v@),
        r is Err ==> spec_json_parse(text@) is None,
{
    match serde_json::from_str::<serde_json::Value>(text) {
        Ok(v) => Ok(from_serde(v)),
        Err(e) => Err(e),
    }
}

/// The message of a `serde_json::Error`, as its `Display` prints it; the
/// contract states nothing of the text.
#[verifier::external_body]
pub(crate) fn json_error_text(e: &serde_json::Error) -> String {
    e.to_string()
}

/// Prints a document with `serde_json::Value`'s `Display` (compact JSON text);
/// the contract only names the result.
#[verifier::external_body]
pub(crate) fn json_text(v: &JsonValue) -> (r: String)
    ensures
        r@ == spec_json_text(v@),
{
    format!("{}", to_serde(v))
}

/// Prints a document with `serde_json::Value`'s alternate `Display` (`{:#}`,
/// indented JSON text); the contract names the result and states that
/// `serde_json` reads a plain document back from it unchanged (objects keep
/// their member order: this crate turns on `serde_json`'s `preserve_order`).
#[verifier::external_body]
pub(crate) fn json_text_pretty(v: &JsonValue) -> (r: String)
    ensures
        r@ == spec_json_text_pretty(v@),
        plain_json(v@, depth_bound()) ==> spec_json_parse(r@) == Some(v@),
{
    format!("{:#}", to_serde(v))
}

impl JsonValue {
    /// Parses a JSON text; `None` where it is not JSON.
    pub fn parse(text: &str) -> (r: Option<JsonValue>)
        ensures
            r matches Some(v) ==> spec_json_parse(text@) == Some(v@),
            r is None ==> spec_json_parse(text@) is None,
    {
        match json_parse(text) {
            Ok(v) => Some(v),
            Err(_) => None,
        }
    }

    /// The compact JSON text of the document.
    pub fn to_text(&self) -> (r: String)
        ensures
            r@ == spec_json_text(self@),
    {
        json_text(self)
    }
}

/// Converts a `serde_json::Value` into the model, variant for variant.
#[verifier::external_body]
fn from_serde(v: serde_json::Value) -> JsonValue {
    match v {
        serde_json::Value::Number(_) => JsonValue::Number(number_from_serde(&v)),
        serde_json::Value::Null => JsonValue::Null,
        serde_json::Value::Bool(b) => JsonValue::Bool(b),
        serde_json::Value::String(s) => JsonValue::Str(s),
        serde_json::Value::Array(a) => JsonValue::Array(a.into_iter().map(from_serde).collect()),
        serde_json::Value::Object(m) => JsonValue::Object(m.into_iter().map(|(k, x)| (k, from_serde(x))).collect()),
    }
}

/// Converts a `serde_json::Value` that is a number into the model: an integer
/// where it is one, its decimal text otherwise.
#[verifier::external_body]
fn number_from_serde(n: &serde_json::Value) -> JsonNumber {
    match (n.as_u64(), n.as_i64()) {
        (Some(u), _) => JsonNumber::PosInt(u),
        (None, Some(i)) => JsonNumber::NegInt(i),
        (None, None) => JsonNumber::Float(n.to_string()),
    }
}

/// Converts the model into a `serde_json::Value`, variant for variant.
#[verifier::external_body]
pub(crate) fn to_serde(v: &JsonValue) -> serde_json::Value {
    match v {
        JsonValue::Null => serde_json::Value::Null,
        JsonValue::Bool(b) => serde_json::Value::Bool(*b),
        JsonValue::Number(n) => number_to_serde(n),
        JsonValue::Str(s) => serde_json::Value::String(s.clone()),
        JsonValue::Array(a) => serde_json::Value::Array(a.iter().map(to_serde).collect()),
        JsonValue::Object(m) => serde_json::Value::Object(m.iter().map(|(k, x)| (k.clone(), to_serde(x))).collect()),
    }
}

/// Converts a number of the model into a `serde_json::Value`; a decimal text
/// that is not a JSON number becomes `null`.
#[verifier::external_body]
fn number_to_serde(n: &JsonNumber) -> serde_json::Value {
    match n {
        JsonNumber::PosInt(u) => serde_json::Value::from(*u),
        JsonNumber::NegInt(i) => serde_json::Value::from(*i),
        JsonNumber::Float(t) => match t.parse::<serde_json::Number>() {
            Ok(x) => serde_json::Value::Number(x),
            Err(_) => serde_json::Value::Null,
        },
    }
}

} // verus!

//! JSON values.
//!
//! [`Json`] is the value the rest of the crate reads and builds. Text is
//! turned into it and back by `serde_json`; the conversion between
//! `serde_json::Value` and [`Json`] is done here, level by level.
use serde_json::{Number, Value};
use vstd::prelude::*;

use crate::text::{same_text, texts};

verus! {

/// `serde_json::Number`, held as it is.
#[verifier::external_type_specification]
#[verifier::external_body]
pub struct ExNumber(serde_json::Number);

/// `serde_json::Value`, opaque but for [`open_value`] and [`close_value`].
#[verifier::external_type_specification]
#[verifier::external_body]
pub struct ExValue(serde_json::Value);

/// `serde_json::Error`, only carried.
#[verifier::external_type_specification]
#[verifier::external_body]
pub struct ExError(serde_json::Error);

/// What a JSON number denotes: an integer, or a fraction known by its text.
pub enum NumberView {
    Integer(int),
    Fraction(Seq<char>),
}

/// What a JSON value is, apart from how it is stored.
pub enum JsonView {
    Null,
    Bool(bool),
    Number(NumberView),
    Text(Seq<char>),
    Array(Seq<JsonView>),
    Object(Map<Seq<char>, JsonView>),
}

/// A JSON value. Where an object names a key more than once, the last one
/// counts.
#[derive(Debug, PartialEq)]
pub enum Json {
    Null,
    Bool(bool),
    Number(Number),
    Text(String),
    Array(Vec<Json>),
    Object(Vec<(String, Json)>),
}

/// One level of a `serde_json::Value`.
enum JsonNode {
    Null,
    Bool(bool),
    Number(Number),
    Text(String),
    Array(Vec<Value>),
    Object(Vec<(String, Value)>),
}

/// What a `serde_json::Number` denotes.
pub uninterp spec fn number_view(n: serde_json::Number) -> NumberView;

/// What a `serde_json::Value` is.
pub uninterp spec fn value_view(v: serde_json::Value) -> JsonView;

/// How deeply a `serde_json::Value` is nested.
pub uninterp spec fn value_depth(v: serde_json::Value) -> nat;

/// What `serde_json::from_str` makes of a text; none where it is not JSON.
pub uninterp spec fn json_parse(text: Seq<char>) -> Option<JsonView>;

/// What `serde_json::from_slice` makes of some bytes; what its error says where
/// they are not JSON.
pub uninterp spec fn json_read(bytes: Seq<u8>) -> Result<JsonView, Seq<char>>;

/// What `serde_json::to_string` writes for a value.
pub uninterp spec fn json_render(v: JsonView) -> Seq<char>;

/// The object that a list of fields makes; a later field replaces an earlier
/// one of the same key.
pub open spec fn fields_map(fields: Seq<(Seq<char>, JsonView)>) -> Map<Seq<char>, JsonView>
    decreases fields.len(),
{
    if fields.len() == 0 {
        Map::empty()
    } else {
        fields_map(fields.drop_last()).insert(fields.last().0, fields.last().1)
    }
}

/// An integer as a JSON value.
pub open spec fn json_int(n: int) -> JsonView {
    JsonView::Number(NumberView::Integer(n))
}

impl JsonView {
    /// The value of `key`, for an object that has it.
    pub open spec fn get(self, key: Seq<char>) -> Option<JsonView> {
        match self {
            JsonView::Object(m) => if m.contains_key(key) {
                Some(m[key])
            } else {
                None
            },
            _ => None,
        }
    }

    /// The item at `i`, for an array that has it.
    pub open spec fn nth(self, i: int) -> Option<JsonView> {
        match self {
            JsonView::Array(items) => if 0 <= i < items.len() {
                Some(items[i])
            } else {
                None
            },
            _ => None,
        }
    }

    /// The text of a JSON string.
    pub open spec fn text(self) -> Option<Seq<char>> {
        match self {
            JsonView::Text(s) => Some(s),
            _ => None,
        }
    }

    /// The value of a JSON boolean.
    pub open spec fn truth(self) -> Option<bool> {
        match self {
            JsonView::Bool(b) => Some(b),
            _ => None,
        }
    }

    /// The value of a JSON number that is an unsigned 64-bit integer.
    pub open spec fn unsigned(self) -> Option<u64> {
        match self {
            JsonView::Number(NumberView::Integer(i)) => if 0 <= i <= u64::MAX {
                Some(i as u64)
            } else {
                None
            },
            _ => None,
        }
    }

    /// The text under `key`.
    pub open spec fn text_at(self, key: Seq<char>) -> Option<Seq<char>> {
        match self.get(key) {
            Some(v) => v.text(),
            None => None,
        }
    }

    /// The boolean under `key`.
    pub open spec fn truth_at(self, key: Seq<char>) -> Option<bool> {
        match self.get(key) {
            Some(v) => v.truth(),
            None => None,
        }
    }

    /// The unsigned integer under `key`.
    pub open spec fn unsigned_at(self, key: Seq<char>) -> Option<u64> {
        match self.get(key) {
            Some(v) => v.unsigned(),
            None => None,
        }
    }
}

impl JsonNode {
    spec fn node_view(self) -> JsonView {
        match self {
            JsonNode::Null => JsonView::Null,
            JsonNode::Bool(b) => JsonView::Bool(b),
            JsonNode::Number(n) => JsonView::Number(number_view(n)),
            JsonNode::Text(s) => JsonView::Text(s@),
            JsonNode::Array(items) => JsonView::Array(items@.map_values(|v: Value| value_view(v))),
            JsonNode::Object(fields) => JsonView::Object(
                fields_map(fields@.map_values(|f: (String, Value)| (f.0@, value_view(f.1)))),
            ),
        }
    }

    spec fn keys_differ(self) -> bool {
        match self {
            JsonNode::Object(fields) => distinct_keys(fields@),
            _ => true,
        }
    }

    spec fn depth_below(self, d: nat) -> bool {
        match self {
            JsonNode::Array(items) => forall|i: int|
                0 <= i < items@.len() ==> value_depth(#[trigger] items@[i]) < d,
            JsonNode::Object(fields) => forall|i: int|
                0 <= i < fields@.len() ==> value_depth((#[trigger] fields@[i]).1) < d,
            _ => true,
        }
    }
}

impl Json {
    pub open spec fn as_view(self) -> JsonView
        decreases self,
    {
        match self {
            Json::Null => JsonView::Null,
            Json::Bool(b) => JsonView::Bool(b),
            Json::Number(n) => JsonView::Number(number_view(n)),
            Json::Text(s) => JsonView::Text(s@),
            Json::Array(items) => JsonView::Array(Json::array_views(items@)),
            Json::Object(fields) => JsonView::Object(fields_map(Json::object_views(fields@))),
        }
    }

    pub open spec fn array_views(items: Seq<Json>) -> Seq<JsonView>
        decreases items,
    {
        Seq::new(
            items.len(),
            |i: int|
                if 0 <= i < items.len() {
                    items[i].as_view()
                } else {
                    JsonView::Null
                },
        )
    }

    pub open spec fn object_views(fields: Seq<(String, Json)>) -> Seq<(Seq<char>, JsonView)>
        decreases fields,
    {
        Seq::new(
            fields.len(),
            |i: int|
                if 0 <= i < fields.len() {
                    (fields[i].0@, fields[i].1.as_view())
                } else {
                    (Seq::empty(), JsonView::Null)
                },
        )
    }
}

impl View for Json {
    type V = JsonView;

    open spec fn view(&self) -> JsonView {
        self.as_view()
    }
}

/// An array of strings.
pub open spec fn text_list(items: Seq<Seq<char>>) -> JsonView {
    JsonView::Array(items.map_values(|s: Seq<char>| JsonView::Text(s)))
}

/// The views of a list of values.
pub open spec fn json_views(items: Seq<Json>) -> Seq<JsonView> {
    items.map_values(|j: Json| j@)
}

/// The views of a list of fields.
pub open spec fn field_views(fields: Seq<(String, Json)>) -> Seq<(Seq<char>, JsonView)> {
    fields.map_values(|f: (String, Json)| (f.0@, f.1@))
}

/// An array is the sequence of its items, an object the map of its fields.
pub broadcast proof fn json_view_of_parts(j: Json)
    ensures
        #![trigger j@]
        j matches Json::Array(items) ==> j@ == JsonView::Array(json_views(items@)),
        j matches Json::Object(fields) ==> j@ == JsonView::Object(
            fields_map(field_views(fields@)),
        ),
{
    match j {
        Json::Array(items) => {
            assert(Json::array_views(items@) == json_views(items@));
        },
        Json::Object(fields) => {
            assert(Json::object_views(fields@) == field_views(fields@));
        },
        _ => {},
    }
}

/// `Number::as_u64`: the value of an integer that fits 64 bits unsigned.
pub assume_specification[ serde_json::Number::as_u64 ](n: &serde_json::Number) -> (r: Option<u64>)
    ensures
        r == JsonView::Number(number_view(*n)).unsigned(),
;

/// `Number::from(u64)`: the number that denotes `n`.
#[verifier::external_body]
fn number_of_u64(n: u64) -> (r: Number)
    ensures
        number_view(r) == NumberView::Integer(n as int),
{
    Number::from(n)
}

/// `Number::from(i64)`: the number that denotes `n`.
#[verifier::external_body]
fn number_of_i64(n: i64) -> (r: Number)
    ensures
        number_view(r) == NumberView::Integer(n as int),
{
    Number::from(n)
}

/// Takes a `serde_json::Value` apart by one level. What comes out is the same
/// value, and its parts are nested less deeply.
#[verifier::external_body]
fn open_value(v: Value) -> (r: JsonNode)
    ensures
        r.node_view() == value_view(v),
        r.depth_below(value_depth(v)),
{
    match v {
        Value::Null => JsonNode::Null,
        Value::Bool(b) => JsonNode::Bool(b),
        Value::Number(n) => JsonNode::Number(n),
        Value::String(s) => JsonNode::Text(s),
        Value::Array(items) => JsonNode::Array(items),
        Value::Object(fields) => JsonNode::Object(fields.into_iter().collect()),
    }
}

/// Builds a `serde_json::Value` from one level; fields are collected into a
/// `serde_json::Map`, each under its key.
#[verifier::external_body]
fn close_value(node: JsonNode) -> (r: Value)
    requires
        node.keys_differ(),
    ensures
        value_view(r) == node.node_view(),
{
    match node {
        JsonNode::Null => Value::Null,
        JsonNode::Bool(b) => Value::Bool(b),
        JsonNode::Number(n) => Value::Number(n),
        JsonNode::Text(s) => Value::String(s),
        JsonNode::Array(items) => Value::Array(items),
        JsonNode::Object(fields) => Value::Object(fields.into_iter().collect()),
    }
}

/// `serde_json::from_str` into a `Value`: what comes out is named by
/// [`json_parse`], which is a function of the text.
#[verifier::external_body]
fn parse_value(text: &str) -> (r: Result<Value, serde_json::Error>)
    ensures
        r is Err == json_parse(text@) is None,
        r is Ok ==> json_parse(text@) == Some(value_view(r->Ok_0)),
{
    serde_json::from_str(text)
}

/// `serde_json::from_slice` into a `Value`: what comes out, or what the error
/// says, is named by [`json_read`], which is a function of the bytes.
#[verifier::external_body]
fn read_value(bytes: &[u8]) -> (r: Result<Value, String>)
    ensures
        r is Ok == json_read(bytes@) is Ok,
        r matches Ok(v) ==> json_read(bytes@)->Ok_0 == value_view(v),
        r matches Err(m) ==> json_read(bytes@)->Err_0 == m@,
{
    serde_json::from_slice(bytes).map_err(|e| e.to_string())
}

/// `serde_json::to_string` of a `Value`, which has only string keys and finite
/// numbers and so always succeeds: the text is named by [`json_render`].
#[verifier::external_body]
fn render_value(v: &Value) -> (r: Result<String, serde_json::Error>)
    ensures
        r is Ok,
        r->Ok_0@ == json_render(value_view(*v)),
{
    serde_json::to_string(v)
}

/// `Number::clone`: the same number.
pub assume_specification[ <serde_json::Number as Clone>::clone ](n: &serde_json::Number) -> (r:
    serde_json::Number)
    ensures
        number_view(r) == number_view(*n),
;

/// Looking past a field of another key changes nothing.
proof fn fields_map_skips(fields: Seq<(Seq<char>, JsonView)>, n: int, key: Seq<char>)
    requires
        0 <= n <= fields.len(),
        forall|j: int| n <= j < fields.len() ==> (#[trigger] fields[j]).0 != key,
    ensures
        fields_map(fields).contains_key(key) == fields_map(fields.take(n)).contains_key(key),
        fields_map(fields).contains_key(key) ==> fields_map(fields)[key] == fields_map(
            fields.take(n),
        )[key],
    decreases fields.len() - n,
{
    if n == fields.len() {
        assert(fields.take(n) == fields);
    } else {
        fields_map_skips(fields, n + 1, key);
        assert(fields.take(n + 1).drop_last() == fields.take(n));
        assert(fields.take(n + 1).last() == fields[n]);
    }
}

fn from_value(value: Value) -> (r: Json)
    ensures
        r@ == value_view(value),
    decreases value_depth(value),
{
    broadcast use json_view_of_parts;

    let ghost depth = value_depth(value);
    match open_value(value) {
        JsonNode::Null => Json::Null,
        JsonNode::Bool(b) => Json::Bool(b),
        JsonNode::Number(n) => Json::Number(n),
        JsonNode::Text(s) => Json::Text(s),
        JsonNode::Array(items) => {
            let ghost all = items@;
            let ghost want = all.map_values(|v: Value| value_view(v));
            let mut out: Vec<Json> = Vec::new();
            for v in it: items
                invariant
                    it.seq() == all,
                    depth == value_depth(value),
                    forall|i: int| 0 <= i < all.len() ==> value_depth(#[trigger] all[i]) < depth,
                    want == all.map_values(|v: Value| value_view(v)),
                    out@.len() == it.index(),
                    json_views(out@) == want.take(it.index()),
            {
                assert(v == all[it.index()]);
                let ghost before = out@;
                out.push(from_value(v));
                assert(json_views(out@) == json_views(before).push(value_view(v)));
                assert(json_views(out@) == want.take(it.index() + 1));
            }
            assert(want.take(want.len() as int) == want);
            Json::Array(out)
        },
        JsonNode::Object(fields) => {
            let ghost all = fields@;
            let ghost want = all.map_values(|f: (String, Value)| (f.0@, value_view(f.1)));
            let mut out: Vec<(String, Json)> = Vec::new();
            for f in it: fields
                invariant
                    it.seq() == all,
                    depth == value_depth(value),
                    forall|i: int|
                        0 <= i < all.len() ==> value_depth((#[trigger] all[i]).1) < depth,
                    want == all.map_values(|f: (String, Value)| (f.0@, value_view(f.1))),
                    out@.len() == it.index(),
                    field_views(out@) == want.take(it.index()),
            {
                assert(f == all[it.index()]);
                let ghost before = out@;
                let ghost key = f.0@;
                let ghost val = value_view(f.1);
                out.push((f.0, from_value(f.1)));
                assert(field_views(out@) == field_views(before).push((key, val)));
                assert(field_views(out@) == want.take(it.index() + 1));
            }
            assert(want.take(want.len() as int) == want);
            Json::Object(out)
        },
    }
}

/// Whether no two fields have the same key.
spec fn distinct_keys(fields: Seq<(String, Value)>) -> bool {
    forall|i: int, k: int|
        0 <= i < k < fields.len() ==> (#[trigger] fields[i]).0@ != (#[trigger] fields[k]).0@
}

/// The views of a list of outside fields.
spec fn value_fields(fields: Seq<(String, Value)>) -> Seq<(Seq<char>, JsonView)> {
    fields.map_values(|f: (String, Value)| (f.0@, value_view(f.1)))
}

/// Where no two fields have the same key, giving one another value is
/// giving its key that value.
proof fn fields_map_updates(fields: Seq<(Seq<char>, JsonView)>, at: int, value: JsonView)
    requires
        0 <= at < fields.len(),
        forall|i: int, k: int|
            0 <= i < k < fields.len() ==> (#[trigger] fields[i]).0 != (#[trigger] fields[k]).0,
    ensures
        fields_map(fields.update(at, (fields[at].0, value))) == fields_map(fields).insert(
            fields[at].0,
            value,
        ),
    decreases fields.len(),
{
    let key = fields[at].0;
    let updated = fields.update(at, (key, value));
    let init = fields.drop_last();
    let last = fields.last();
    if at == fields.len() - 1 {
        assert(updated.drop_last() == init);
        assert(fields_map(init).insert(key, last.1).insert(key, value) == fields_map(init).insert(
            key,
            value,
        ));
    } else {
        assert(updated.drop_last() == init.update(at, (key, value)));
        assert(init[at] == fields[at]);
        fields_map_updates(init, at, value);
        assert(fields[at].0 != fields[fields.len() - 1].0);
        assert(fields_map(init).insert(key, value).insert(last.0, last.1) == fields_map(
            init,
        ).insert(last.0, last.1).insert(key, value));
    }
}

/// Gives `key` the value `value` among `fields`, in place of one it had.
fn put(fields: &mut Vec<(String, Value)>, key: &String, value: Value)
    requires
        distinct_keys(old(fields)@),
    ensures
        distinct_keys(final(fields)@),
        fields_map(value_fields(final(fields)@)) == fields_map(
            value_fields(old(fields)@),
        ).insert(key@, value_view(value)),
{
    let ghost before = fields@;
    let ghost views = value_fields(before);
    let ghost set = value_view(value);
    let mut i: usize = 0;
    while i < fields.len()
        invariant
            i <= fields@.len(),
            before == old(fields)@,
            fields@ == before,
            views == value_fields(before),
            distinct_keys(before),
            set == value_view(value),
            forall|k: int| 0 <= k < i ==> (#[trigger] fields@[k]).0@ != key@,
        decreases fields@.len() - i,
    {
        if same_text(fields[i].0.as_str(), key.as_str()) {
            fields[i] = (key.clone(), value);
            proof {
                assert(views[i as int].0 == key@);
                fields_map_updates(views, i as int, set);
                assert(value_fields(fields@) == views.update(i as int, (key@, set)));
                assert forall|a: int, b: int| 0 <= a < b < fields@.len() implies (
                #[trigger] fields@[a]).0@ != (#[trigger] fields@[b]).0@ by {
                    assert(before[a].0@ == fields@[a].0@);
                    assert(before[b].0@ == fields@[b].0@);
                }
            }
            return ;
        }
        i += 1;
    }
    fields.push((key.clone(), value));
    proof {
        assert(value_fields(fields@).drop_last() == views);
        assert(value_fields(fields@).last() == (key@, set));
        assert forall|a: int, b: int| 0 <= a < b < fields@.len() implies (
        #[trigger] fields@[a]).0@ != (#[trigger] fields@[b]).0@ by {
            assert(fields@[a] == before[a]);
            if b < before.len() {
                assert(fields@[b] == before[b]);
            }
        }
    }
}

fn to_value(j: &Json) -> (r: Value)
    ensures
        value_view(r) == j@,
    decreases j,
{
    broadcast use json_view_of_parts;

    match j {
        Json::Null => close_value(JsonNode::Null),
        Json::Bool(b) => close_value(JsonNode::Bool(*b)),
        Json::Number(n) => close_value(JsonNode::Number(n.clone())),
        Json::Text(s) => close_value(JsonNode::Text(s.clone())),
        Json::Array(items) => {
            let mut out: Vec<Value> = Vec::new();
            let mut i: usize = 0;
            while i < items.len()
                invariant
                    i <= items@.len(),
                    *j == Json::Array(*items),
                    out@.map_values(|v: Value| value_view(v)) == json_views(items@).take(i as int),
                decreases items@.len() - i,
            {
                let ghost before = out@;
                assert(decreases_to!(*j => j->Array_0));
                assert(decreases_to!(*j => items@[i as int]));
                out.push(to_value(&items[i]));
                assert(out@.map_values(|v: Value| value_view(v)) == before.map_values(
                    |v: Value| value_view(v),
                ).push(items@[i as int]@));
                i += 1;
                assert(out@.map_values(|v: Value| value_view(v)) == json_views(items@).take(
                    i as int,
                ));
            }
            assert(json_views(items@).take(i as int) == json_views(items@));
            close_value(JsonNode::Array(out))
        },
        Json::Object(fields) => {
            let ghost views = field_views(fields@);
            let mut out: Vec<(String, Value)> = Vec::new();
            let mut i: usize = 0;
            assert(value_fields(out@) == views.take(0));
            while i < fields.len()
                invariant
                    i <= fields@.len(),
                    *j == Json::Object(*fields),
                    views == field_views(fields@),
                    distinct_keys(out@),
                    fields_map(value_fields(out@)) == fields_map(views.take(i as int)),
                decreases fields@.len() - i,
            {
                assert(decreases_to!(*j => j->Object_0));
                assert(decreases_to!(*j => fields@[i as int].1));
                let value = to_value(&fields[i].1);
                put(&mut out, &fields[i].0, value);
                proof {
                    let upto = views.take(i + 1);
                    assert(upto.drop_last() == views.take(i as int));
                    assert(upto.last() == (fields@[i as int].0@, fields@[i as int].1@));
                }
                i += 1;
            }
            assert(views.take(i as int) == views);
            close_value(JsonNode::Object(out))
        },
    }
}

impl Json {
    /// The value that `text` denotes, where it is JSON.
    pub fn parse(text: &str) -> (r: Option<Json>)
        ensures
            r is Some == json_parse(text@) is Some,
            r matches Some(j) ==> json_parse(text@) == Some(j@),
    {
        match parse_value(text) {
            Ok(v) => Some(from_value(v)),
            Err(_) => None,
        }
    }

    /// The value that `bytes` denote, or why they are not JSON.
    pub fn read(bytes: &[u8]) -> (r: Result<Json, String>)
        ensures
            match json_read(bytes@) {
                Ok(v) => r matches Ok(j) && j@ == v,
                Err(why) => r matches Err(m) && m@ == why,
            },
    {
        match read_value(bytes) {
            Ok(v) => Ok(from_value(v)),
            Err(m) => Err(m),
        }
    }

    /// The compact JSON text of the value.
    pub fn render(&self) -> (out: String)
        ensures
            out@ == json_render(self@),
    {
        match render_value(&to_value(self)) {
            Ok(s) => s,
            Err(_) => String::new(),
        }
    }

    /// A JSON string.
    pub fn text(s: &str) -> (r: Json)
        ensures
            r@ == JsonView::Text(s@),
    {
        Json::Text(s.to_string())
    }

    /// An unsigned integer.
    pub fn unsigned(n: u64) -> (r: Json)
        ensures
            r@ == json_int(n as int),
    {
        Json::Number(number_of_u64(n))
    }

    /// A signed integer.
    pub fn signed(n: i64) -> (r: Json)
        ensures
            r@ == json_int(n as int),
    {
        Json::Number(number_of_i64(n))
    }

    /// An array of strings.
    pub fn text_array(items: &Vec<String>) -> (r: Json)
        ensures
            r@ == text_list(texts(items@)),
    {
        broadcast use json_view_of_parts;

        let ghost want = texts(items@).map_values(|s: Seq<char>| JsonView::Text(s));
        let mut out: Vec<Json> = Vec::new();
        let mut i: usize = 0;
        while i < items.len()
            invariant
                i <= items@.len(),
                want == texts(items@).map_values(|s: Seq<char>| JsonView::Text(s)),
                json_views(out@) == want.take(i as int),
            decreases items@.len() - i,
        {
            let ghost before = out@;
            out.push(Json::text(items[i].as_str()));
            assert(json_views(out@) == json_views(before).push(JsonView::Text(items@[i as int]@)));
            i += 1;
            assert(json_views(out@) == want.take(i as int));
        }
        assert(want.take(want.len() as int) == want);
        Json::Array(out)
    }

    /// The value of `key`, for an object that has it.
    pub fn get(&self, key: &str) -> (r: Option<&Json>)
        ensures
            r is Some == self@.get(key@) is Some,
            r matches Some(v) ==> self@.get(key@) == Some(v@),
    {
        broadcast use json_view_of_parts;

        match self {
            Json::Object(fields) => {
                let mut n: usize = fields.len();
                let ghost views = field_views(fields@);
                while n > 0
                    invariant
                        n <= fields@.len(),
                        views == field_views(fields@),
                        *self == Json::Object(*fields),
                        forall|j: int| n <= j < fields@.len() ==> (#[trigger] views[j]).0 != key@,
                    decreases n,
                {
                    if same_text(fields[n - 1].0.as_str(), key) {
                        proof {
                            fields_map_skips(views, n as int, key@);
                            json_view_of_parts(*self);
                            assert(views.take(n as int).last() == views[n - 1]);
                            assert(views[n - 1] == (fields@[n - 1].0@, fields@[n - 1].1@));
                        }
                        return Some(&fields[n - 1].1);
                    }
                    n -= 1;
                }
                proof {
                    fields_map_skips(views, 0, key@);
                }
                None
            },
            _ => None,
        }
    }

    /// The item at `i`, for an array that has it.
    pub fn nth(&self, i: usize) -> (r: Option<&Json>)
        ensures
            r is Some == self@.nth(i as int) is Some,
            r matches Some(v) ==> self@.nth(i as int) == Some(v@),
    {
        broadcast use json_view_of_parts;

        match self {
            Json::Array(items) => if i < items.len() {
                Some(&items[i])
            } else {
                None
            },
            _ => None,
        }
    }

    /// The text of a JSON string.
    pub fn as_str(&self) -> (r: Option<&str>)
        ensures
            r is Some == self@.text() is Some,
            r matches Some(s) ==> self@.text() == Some(s@),
    {
        match self {
            Json::Text(s) => Some(s.as_str()),
            _ => None,
        }
    }

    /// The value of a JSON boolean.
    pub fn as_bool(&self) -> (r: Option<bool>)
        ensures
            r == self@.truth(),
    {
        match self {
            Json::Bool(b) => Some(*b),
            _ => None,
        }
    }

    /// The value of a JSON number that is an unsigned 64-bit integer.
    pub fn as_u64(&self) -> (r: Option<u64>)
        ensures
            r == self@.unsigned(),
    {
        match self {
            Json::Number(n) => n.as_u64(),
            _ => None,
        }
    }

    /// The text under `key`.
    pub fn get_str(&self, key: &str) -> (r: Option<&str>)
        ensures
            r is Some == self@.text_at(key@) is Some,
            r matches Some(s) ==> self@.text_at(key@) == Some(s@),
    {
        match self.get(key) {
            Some(v) => v.as_str(),
            None => None,
        }
    }

    /// The boolean under `key`.
    pub fn get_bool(&self, key: &str) -> (r: Option<bool>)
        ensures
            r == self@.truth_at(key@),
    {
        match self.get(key) {
            Some(v) => v.as_bool(),
            None => None,
        }
    }

    /// The unsigned integer under `key`.
    pub fn get_u64(&self, key: &str) -> (r: Option<u64>)
        ensures
            r == self@.unsigned_at(key@),
    {
        match self.get(key) {
            Some(v) => v.as_u64(),
            None => None,
        }
    }

    /// A copy of the value.
    pub fn duplicate(&self) -> (r: Json)
        ensures
            r@ == self@,
    {
        from_value(to_value(self))
    }
}

/// An object under construction.
pub struct ObjectBuilder {
    fields: Vec<(String, Json)>,
}

impl View for ObjectBuilder {
    type V = Map<Seq<char>, JsonView>;

    closed spec fn view(&self) -> Map<Seq<char>, JsonView> {
        fields_map(field_views(self.fields@))
    }
}

impl ObjectBuilder {
    /// An object without fields.
    pub fn new() -> (r: Self)
        ensures
            r@ == Map::<Seq<char>, JsonView>::empty(),
    {
        ObjectBuilder { fields: Vec::new() }
    }

    /// The object with `key` set to `value`.
    pub fn with(self, key: &str, value: Json) -> (r: Self)
        ensures
            r@ == self@.insert(key@, value@),
    {
        let ghost before = self.fields@;
        let mut fields = self.fields;
        let ghost v = value@;
        fields.push((key.to_string(), value));
        proof {
            assert(field_views(fields@).drop_last() == field_views(before));
            assert(field_views(fields@).last() == (key@, v));
        }
        ObjectBuilder { fields }
    }

    /// The finished object.
    pub fn build(self) -> (r: Json)
        ensures
            r@ == JsonView::Object(self@),
    {
        broadcast use json_view_of_parts;

        Json::Object(self.fields)
    }
}

/// An object gives what it holds under a key, and nothing under another; no
/// other value gives anything.
pub proof fn object_gives_what_it_holds(
    m: Map<Seq<char>, JsonView>,
    key: Seq<char>,
    other: Seq<char>,
    v: JsonView,
    items: Seq<JsonView>,
    t: Seq<char>,
)
    ensures
        JsonView::Object(m.insert(key, v)).get(key) == Some(v),
        other != key ==> JsonView::Object(m.insert(key, v)).get(other) == JsonView::Object(m).get(
            other,
        ),
        JsonView::Object(m.remove(key)).get(key) is None,
        JsonView::Null.get(key) is None,
        JsonView::Text(t).get(key) is None,
        JsonView::Array(items).get(key) is None,
{
}

/// An array gives its items by their places, and nothing beyond them.
pub proof fn array_gives_its_items(items: Seq<JsonView>, i: int, m: Map<Seq<char>, JsonView>)
    ensures
        0 <= i < items.len() ==> JsonView::Array(items).nth(i) == Some(items[i]),
        !(0 <= i < items.len()) ==> JsonView::Array(items).nth(i) is None,
        JsonView::Object(m).nth(i) is None,
        JsonView::Null.nth(i) is None,
{
}

/// A value is read as what it is and as nothing else: a string as text, a
/// boolean as a truth, and an integer that fits 64 bits as a number.
pub proof fn values_are_read_as_they_are(v: JsonView, t: Seq<char>, b: bool, n: int)
    ensures
        JsonView::Text(t).text() == Some(t),
        v.text() is Some <==> v is Text,
        JsonView::Bool(b).truth() == Some(b),
        v.truth() is Some <==> v is Bool,
        0 <= n <= u64::MAX ==> JsonView::Number(NumberView::Integer(n)).unsigned() == Some(
            n as u64,
        ),
        n < 0 || n > u64::MAX ==> JsonView::Number(NumberView::Integer(n)).unsigned() is None,
        JsonView::Number(NumberView::Fraction(t)).unsigned() is None,
        v !is Number ==> v.unsigned() is None,
        json_int(n) == JsonView::Number(NumberView::Integer(n)),
{
}

/// What stands under a key is read as what it is.
pub proof fn values_are_read_under_their_key(
    m: Map<Seq<char>, JsonView>,
    key: Seq<char>,
    v: JsonView,
)
    ensures
        JsonView::Object(m.insert(key, v)).text_at(key) == v.text(),
        JsonView::Object(m.insert(key, v)).truth_at(key) == v.truth(),
        JsonView::Object(m.insert(key, v)).unsigned_at(key) == v.unsigned(),
        JsonView::Object(m.remove(key)).text_at(key) is None,
        JsonView::Object(m.remove(key)).truth_at(key) is None,
        JsonView::Object(m.remove(key)).unsigned_at(key) is None,
{
}

/// The last field of a key counts, and every field of another key stays.
pub proof fn last_field_counts(
    fields: Seq<(Seq<char>, JsonView)>,
    key: Seq<char>,
    v: JsonView,
    other: Seq<char>,
)
    ensures
        fields_map(Seq::empty()) == Map::<Seq<char>, JsonView>::empty(),
        fields_map(fields.push((key, v))).contains_key(key),
        fields_map(fields.push((key, v)))[key] == v,
        other != key ==> (fields_map(fields.push((key, v))).contains_key(other) <==> fields_map(
            fields,
        ).contains_key(other)),
        other != key && fields_map(fields).contains_key(other) ==> fields_map(
            fields.push((key, v)),
        )[other] == fields_map(fields)[other],
{
    assert(fields.push((key, v)).drop_last() == fields);
}

/// A list of texts is the array of them, in order.
pub proof fn text_list_is_by_item(items: Seq<Seq<char>>)
    ensures
        text_list(items) matches JsonView::Array(all) && all.len() == items.len() && forall|i: int|
            0 <= i < items.len() ==> #[trigger] all[i] == JsonView::Text(items[i]),
{
}

/// A value is seen as what it is, an array item by item and an object field by
/// field.
pub proof fn json_is_seen_as_it_is(j: Json)
    ensures
        j is Null ==> j@ == JsonView::Null,
        j matches Json::Bool(b) ==> j@ == JsonView::Bool(b),
        j matches Json::Text(s) ==> j@ == JsonView::Text(s@),
        j matches Json::Number(n) ==> j@ == JsonView::Number(number_view(n)),
        j matches Json::Array(items) ==> (j@ matches JsonView::Array(all) && all.len()
            == items@.len() && forall|i: int|
            0 <= i < items@.len() ==> #[trigger] all[i] == items@[i]@),
        j matches Json::Object(fields) ==> (fields@.len() > 0 ==> j@.get(fields@.last().0@) == Some(
            fields@.last().1@,
        )),
{
    json_view_of_parts(j);
    if let Json::Object(fields) = j {
        if fields@.len() > 0 {
            let all = field_views(fields@);
            assert(all.last() == (fields@.last().0@, fields@.last().1@));
        }
    }
}

} // verus!

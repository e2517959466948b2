//! JSON documents as plain data, with `serde_json` behind the two functions
//! that read and write JSON text.

use crate::text::str_eq;
use serde_json::Value;
use vstd::prelude::*;

verus! {

/// A JSON number: a non-negative integer, a negative integer, or any other
/// number in its decimal notation.
#[derive(Debug, PartialEq, Eq)]
pub enum JsonNumber {
    PosInt(u64),
    NegInt(i64),
    Real(String),
}

/// A JSON document. An object is the list of its members; where a key occurs
/// more than once, the last member with that key counts.
#[derive(Debug, PartialEq, Eq)]
pub enum Json {
    Null,
    Bool(bool),
    Number(JsonNumber),
    String(String),
    Array(Vec<Json>),
    Object(Vec<(String, Json)>),
}

/// The mathematical value of a `JsonNumber`.
pub enum JsonNumberValue {
    PosInt(u64),
    NegInt(i64),
    Real(Seq<char>),
}

/// The mathematical value of a `Json`.
pub enum JsonValue {
    Null,
    Bool(bool),
    Number(JsonNumberValue),
    String(Seq<char>),
    Array(Seq<JsonValue>),
    Object(Seq<(Seq<char>, JsonValue)>),
}

impl View for JsonNumber {
    type V = JsonNumberValue;

    open spec fn view(&self) -> JsonNumberValue {
        match self {
            JsonNumber::PosInt(u) => JsonNumberValue::PosInt(*u),
            JsonNumber::NegInt(i) => JsonNumberValue::NegInt(*i),
            JsonNumber::Real(t) => JsonNumberValue::Real(t@),
        }
    }
}

impl View for Json {
    type V = JsonValue;

    open spec fn view(&self) -> JsonValue {
        json_value(*self)
    }
}

/// The value of a document.
pub open spec fn json_value(j: Json) -> JsonValue
    decreases j, 0nat,
{
    match j {
        Json::Null => JsonValue::Null,
        Json::Bool(b) => JsonValue::Bool(b),
        Json::Number(n) => JsonValue::Number(n@),
        Json::String(s) => JsonValue::String(s@),
        Json::Array(items) => JsonValue::Array(first_values(items, items@.len())),
        Json::Object(members) => JsonValue::Object(first_members(members, members@.len())),
    }
}

/// The values of the first `n` documents of `items`.
pub open spec fn first_values(items: Vec<Json>, n: nat) -> Seq<JsonValue>
    decreases items, n,
{
    if n == 0 || n > items@.len() {
        Seq::empty()
    } else {
        proof {
            vstd::std_specs::vec::axiom_vec_index_decreases(items, n - 1);
        }
        first_values(items, (n - 1) as nat).push(json_value(items@[n - 1]))
    }
}

/// The values of the first `n` members of `members`.
pub open spec fn first_members(members: Vec<(String, Json)>, n: nat) -> Seq<
    (Seq<char>, JsonValue),
>
    decreases members, n,
{
    if n == 0 || n > members@.len() {
        Seq::empty()
    } else {
        proof {
            vstd::std_specs::vec::axiom_vec_index_decreases(members, n - 1);
        }
        first_members(members, (n - 1) as nat).push(
            (members@[n - 1].0@, json_value(members@[n - 1].1)),
        )
    }
}

/// The values of a list of documents.
pub open spec fn json_seq(items: Seq<Json>) -> Seq<JsonValue> {
    Seq::new(items.len(), |i: int| items[i]@)
}

/// The values of a list of object members.
pub open spec fn member_seq(members: Seq<(String, Json)>) -> Seq<(Seq<char>, JsonValue)> {
    Seq::new(members.len(), |i: int| (members[i].0@, members[i].1@))
}

/// The value of an optional document.
pub open spec fn opt_view(j: Option<&Json>) -> Option<JsonValue> {
    match j {
        Some(x) => Some(x@),
        None => None,
    }
}

/// The value of the last member of `members` whose key is `key`.
pub open spec fn lookup(members: Seq<(Seq<char>, JsonValue)>, key: Seq<char>) -> Option<
    JsonValue,
>
    decreases members.len(),
{
    if members.len() == 0 {
        None
    } else if members.last().0 == key {
        Some(members.last().1)
    } else {
        lookup(members.drop_last(), key)
    }
}

impl JsonValue {
    /// The member `key` of an object; `None` for a missing key and for
    /// anything that is no object.
    pub open spec fn get(self, key: Seq<char>) -> Option<JsonValue> {
        match self {
            JsonValue::Object(members) => lookup(members, key),
            _ => None,
        }
    }

    /// The text of a string.
    pub open spec fn as_str(self) -> Option<Seq<char>> {
        match self {
            JsonValue::String(s) => Some(s),
            _ => None,
        }
    }

    /// The items of an array.
    pub open spec fn as_array(self) -> Option<Seq<JsonValue>> {
        match self {
            JsonValue::Array(items) => Some(items),
            _ => None,
        }
    }

    /// The number, where it is an integer from 0 to `u64::MAX`.
    pub open spec fn as_u64(self) -> Option<u64> {
        match self {
            JsonValue::Number(JsonNumberValue::PosInt(u)) => Some(u),
            JsonValue::Number(JsonNumberValue::NegInt(i)) => if i >= 0 {
                Some(i as u64)
            } else {
                None
            },
            _ => None,
        }
    }
}

/// The member `key` of an optional document.
pub open spec fn field(v: Option<JsonValue>, key: Seq<char>) -> Option<JsonValue> {
    match v {
        Some(x) => x.get(key),
        None => None,
    }
}

/// The text of an optional document that is a string.
pub open spec fn str_of(v: Option<JsonValue>) -> Option<Seq<char>> {
    match v {
        Some(x) => x.as_str(),
        None => None,
    }
}

/// The items of an optional document that is an array.
pub open spec fn array_of(v: Option<JsonValue>) -> Option<Seq<JsonValue>> {
    match v {
        Some(x) => x.as_array(),
        None => None,
    }
}

/// The text of an optional document that is a string, else the empty text.
pub open spec fn str_or_empty(v: Option<JsonValue>) -> Seq<char> {
    match str_of(v) {
        Some(s) => s,
        None => Seq::empty(),
    }
}

/// The number of an optional document that is an integer from 0 to
/// `u64::MAX`.
pub open spec fn u64_of(v: Option<JsonValue>) -> Option<u64> {
    match v {
        Some(x) => x.as_u64(),
        None => None,
    }
}

/// A string, or `null` where there is none.
pub open spec fn opt_string_json(s: Option<Seq<char>>) -> JsonValue {
    match s {
        Some(t) => JsonValue::String(t),
        None => JsonValue::Null,
    }
}

/// The number `n`.
pub open spec fn number_json(n: u32) -> JsonValue {
    JsonValue::Number(JsonNumberValue::PosInt(n as u64))
}

/// The member `key` of an object under construction, where there is a value
/// for it.
pub open spec fn optional_member(key: Seq<char>, value: Option<JsonValue>) -> Seq<
    (Seq<char>, JsonValue),
> {
    match value {
        Some(v) => seq![(key, v)],
        None => Seq::empty(),
    }
}

/// The first item of an optional list.
pub open spec fn first_of(items: Option<Seq<JsonValue>>) -> Option<JsonValue> {
    match items {
        Some(s) => if s.len() > 0 {
            Some(s[0])
        } else {
            None
        },
        None => None,
    }
}

/// The optional document itself, else `null`.
pub open spec fn or_null(v: Option<JsonValue>) -> JsonValue {
    match v {
        Some(x) => x,
        None => JsonValue::Null,
    }
}

proof fn lemma_first_values(items: Vec<Json>, n: nat)
    requires
        n <= items@.len(),
    ensures
        first_values(items, n) == json_seq(items@).take(n as int),
    decreases n,
{
    if n > 0 {
        lemma_first_values(items, (n - 1) as nat);
        assert(first_values(items, n) =~= json_seq(items@).take(n as int));
    } else {
        assert(first_values(items, n) =~= json_seq(items@).take(n as int));
    }
}

proof fn lemma_first_members(members: Vec<(String, Json)>, n: nat)
    requires
        n <= members@.len(),
    ensures
        first_members(members, n) == member_seq(members@).take(n as int),
    decreases n,
{
    if n > 0 {
        lemma_first_members(members, (n - 1) as nat);
        assert(first_members(members, n) =~= member_seq(members@).take(n as int));
    } else {
        assert(first_members(members, n) =~= member_seq(members@).take(n as int));
    }
}

/// The value of an array is the array of its items' values.
pub proof fn lemma_array_view(items: Vec<Json>)
    ensures
        Json::Array(items)@ == JsonValue::Array(json_seq(items@)),
{
    lemma_first_values(items, items@.len());
    assert(json_seq(items@).take(items@.len() as int) =~= json_seq(items@));
}

/// The value of an object is the list of its members' values.
pub proof fn lemma_object_view(members: Vec<(String, Json)>)
    ensures
        Json::Object(members)@ == JsonValue::Object(member_seq(members@)),
{
    lemma_first_members(members, members@.len());
    assert(member_seq(members@).take(members@.len() as int) =~= member_seq(members@));
}

impl Clone for JsonNumber {
    fn clone(&self) -> (r: Self)
        ensures
            r@ == self@,
    {
        match self {
            JsonNumber::PosInt(u) => JsonNumber::PosInt(*u),
            JsonNumber::NegInt(i) => JsonNumber::NegInt(*i),
            JsonNumber::Real(t) => JsonNumber::Real(t.clone()),
        }
    }
}

impl Clone for Json {
    fn clone(&self) -> (r: Self)
        ensures
            r@ == self@,
        decreases self,
    {
        match self {
            Json::Null => Json::Null,
            Json::Bool(b) => Json::Bool(*b),
            Json::Number(n) => Json::Number(n.clone()),
            Json::String(s) => Json::String(s.clone()),
            Json::Array(items) => {
                let mut out: Vec<Json> = Vec::new();
                let mut i: usize = 0;
                while i < items.len()
                    invariant
                        i <= items.len(),
                        out.len() == i,
                        self == Json::Array(*items),
                        forall|k: int| 0 <= k < i ==> out@[k]@ == items@[k]@,
                    decreases items.len() - i,
                {
                    proof {
                        vstd::std_specs::vec::axiom_vec_index_decreases(*items, i as int);
                        assert(self->Array_0 == *items);
                    }
                    out.push(items[i].clone());
                    i += 1;
                }
                proof {
                    lemma_array_view(out);
                    lemma_array_view(*items);
                    assert(json_seq(out@) =~= json_seq(items@));
                }
                Json::Array(out)
            },
            Json::Object(members) => {
                let mut out: Vec<(String, Json)> = Vec::new();
                let mut i: usize = 0;
                while i < members.len()
                    invariant
                        i <= members.len(),
                        out.len() == i,
                        self == Json::Object(*members),
                        forall|k: int|
                            0 <= k < i ==> out@[k].0@ == members@[k].0@ && out@[k].1@
                                == members@[k].1@,
                    decreases members.len() - i,
                {
                    proof {
                        vstd::std_specs::vec::axiom_vec_index_decreases(*members, i as int);
                        assert(self->Object_0 == *members);
                    }
                    out.push((members[i].0.clone(), members[i].1.clone()));
                    i += 1;
                }
                proof {
                    lemma_object_view(out);
                    lemma_object_view(*members);
                    assert(member_seq(out@) =~= member_seq(members@));
                }
                Json::Object(out)
            },
        }
    }
}

impl Json {
    /// A JSON string with the text of `s`.
    pub fn text(s: &str) -> (r: Json)
        ensures
            r@ == JsonValue::String(s@),
    {
        Json::String(s.to_owned())
    }

    /// The JSON number `n`.
    pub fn unsigned(n: u64) -> (r: Json)
        ensures
            r@ == JsonValue::Number(JsonNumberValue::PosInt(n)),
    {
        Json::Number(JsonNumber::PosInt(n))
    }

    /// The object with the given members.
    pub fn object(members: Vec<(String, Json)>) -> (r: Json)
        ensures
            r@ == JsonValue::Object(member_seq(members@)),
    {
        proof {
            lemma_object_view(members);
        }
        Json::Object(members)
    }

    /// The array with the given items.
    pub fn array(items: Vec<Json>) -> (r: Json)
        ensures
            r@ == JsonValue::Array(json_seq(items@)),
    {
        proof {
            lemma_array_view(items);
        }
        Json::Array(items)
    }

    /// A string, or `null` where there is none.
    pub fn opt_text(s: &Option<String>) -> (r: Json)
        ensures
            r@ == opt_string_json(
                match s {
                    Some(t) => Some(t@),
                    None => None,
                },
            ),
    {
        match s {
            Some(t) => Json::String(t.clone()),
            None => Json::Null,
        }
    }

    /// The member `key` of an object; `None` for a missing key and for
    /// anything that is no object.
    pub fn get(&self, key: &str) -> (r: Option<&Json>)
        ensures
            opt_view(r) == self@.get(key@),
    {
        match self {
            Json::Object(members) => {
                proof {
                    lemma_object_view(*members);
                }
                let ghost all = member_seq(members@);
                let mut i: usize = members.len();
                assert(all.take(i as int) =~= all);
                while i > 0
                    invariant
                        i <= members.len(),
                        all == member_seq(members@),
                        self@ == JsonValue::Object(all),
                        lookup(all, key@) == lookup(all.take(i as int), key@),
                    decreases i,
                {
                    i -= 1;
                    let ghost prefix = all.take(i + 1);
                    assert(prefix.last() == all[i as int]);
                    assert(prefix.drop_last() =~= all.take(i as int));
                    if str_eq(members[i].0.as_str(), key) {
                        assert(all[i as int].1 == members@[i as int].1@);
                        return Some(&members[i].1);
                    }
                }
                None
            },
            _ => None,
        }
    }

    /// The text of a string.
    pub fn as_str(&self) -> (r: Option<&str>)
        ensures
            match r {
                Some(s) => self@.as_str() == Some(s@),
                None => self@.as_str() is None,
            },
    {
        match self {
            Json::String(s) => Some(s.as_str()),
            _ => None,
        }
    }

    /// The items of an array.
    pub fn as_array(&self) -> (r: Option<&Vec<Json>>)
        ensures
            match r {
                Some(items) => self@.as_array() == Some(json_seq(items@)),
                None => self@.as_array() is None,
            },
    {
        match self {
            Json::Array(items) => {
                proof {
                    lemma_array_view(*items);
                }
                Some(items)
            },
            _ => None,
        }
    }

    /// The number, where it is an integer from 0 to `u64::MAX`.
    pub fn as_u64(&self) -> (r: Option<u64>)
        ensures
            r == self@.as_u64(),
    {
        match self {
            Json::Number(JsonNumber::PosInt(u)) => Some(*u),
            Json::Number(JsonNumber::NegInt(i)) => if *i >= 0 {
                Some(*i as u64)
            } else {
                None
            },
            _ => None,
        }
    }

    /// Reads JSON text. The error is the parser's message.
    pub fn parse(text: &str) -> (r: Result<Json, String>)
        ensures
            result_view(r) == json_parse(text@),
    {
        match read_value(text) {
            Ok(v) => Ok(from_value(v)),
            Err(e) => Err(e),
        }
    }

    /// Writes the document as compact JSON text.
    pub fn to_text(&self) -> (r: String)
        ensures
            r@ == json_text(self@),
    {
        let value = to_value(self);
        write_value(&value)
    }
}

/// The member `key` of an optional document.
pub fn get_field<'a>(v: Option<&'a Json>, key: &str) -> (r: Option<&'a Json>)
    ensures
        opt_view(r) == field(opt_view(v), key@),
{
    match v {
        Some(x) => x.get(key),
        None => None,
    }
}

/// The number of an optional document that is an integer from 0 to
/// `u64::MAX`.
pub fn get_u64(v: Option<&Json>) -> (r: Option<u64>)
    ensures
        r == u64_of(opt_view(v)),
{
    match v {
        Some(x) => x.as_u64(),
        None => None,
    }
}

/// Adds the member `key` to the members of an object under construction.
pub fn push_member(members: &mut Vec<(String, Json)>, key: &str, value: Json)
    ensures
        member_seq(final(members)@) == member_seq(old(members)@).push((key@, value@)),
{
    members.push((key.to_owned(), value));
    assert(member_seq(members@) =~= member_seq(old(members)@).push((key@, value@)));
}

/// Adds an item to the items of an array under construction.
pub fn push_item(items: &mut Vec<Json>, value: Json)
    ensures
        json_seq(final(items)@) == json_seq(old(items)@).push(value@),
{
    items.push(value);
    assert(json_seq(items@) =~= json_seq(old(items)@).push(value@));
}

/// The text of an optional document that is a string.
pub fn get_str<'a>(v: Option<&'a Json>) -> (r: Option<&'a str>)
    ensures
        match r {
            Some(s) => str_of(opt_view(v)) == Some(s@),
            None => str_of(opt_view(v)) is None,
        },
{
    match v {
        Some(x) => x.as_str(),
        None => None,
    }
}

/// The items of an optional document that is an array.
pub fn get_array<'a>(v: Option<&'a Json>) -> (r: Option<&'a Vec<Json>>)
    ensures
        match r {
            Some(items) => array_of(opt_view(v)) == Some(json_seq(items@)),
            None => array_of(opt_view(v)) is None,
        },
{
    match v {
        Some(x) => x.as_array(),
        None => None,
    }
}

/// The text of an optional document that is a string, else the empty text.
pub fn get_string(v: Option<&Json>) -> (r: String)
    ensures
        r@ == str_or_empty(opt_view(v)),
{
    match get_str(v) {
        Some(s) => s.to_owned(),
        None => String::new(),
    }
}

/// A copy of the optional document, else `null`.
pub fn get_or_null(v: Option<&Json>) -> (r: Json)
    ensures
        r@ == or_null(opt_view(v)),
{
    match v {
        Some(x) => x.clone(),
        None => Json::Null,
    }
}

/// What reading a text gives: the document's value, or the parser's message.
pub open spec fn result_view(r: Result<Json, String>) -> Result<JsonValue, Seq<char>> {
    match r {
        Ok(j) => Ok(j@),
        Err(e) => Err(e@),
    }
}

/// Makes `serde_json::Value` known as an opaque type.
#[verifier::external_type_specification]
#[verifier::external_body]
pub struct ExValue(Value);

/// The name, for contracts, of what `serde_json::from_str` makes of a text:
/// the document it reads, or the message of the error it reports.
pub uninterp spec fn json_parse(text: Seq<char>) -> Result<JsonValue, Seq<char>>;

/// The name, for contracts, of the compact text that `serde_json` writes for
/// a document.
pub uninterp spec fn json_text(value: JsonValue) -> Seq<char>;

/// The name, for contracts, of the document that a `serde_json::Value`
/// holds.
pub uninterp spec fn value_json(value: Value) -> JsonValue;

/// The name, for contracts, of the compact text that `to_string` writes for
/// a `serde_json::Value`.
pub uninterp spec fn value_text(value: Value) -> Seq<char>;

/// What reading a text into a `serde_json::Value` gave.
pub open spec fn read_view(r: Result<Value, String>) -> Result<JsonValue, Seq<char>> {
    match r {
        Ok(v) => Ok(value_json(v)),
        Err(e) => Err(e@),
    }
}

/// Calls `serde_json::from_str` for a `serde_json::Value`.
///
/// Trusted: the outcome depends on the text alone. Nothing is claimed of
/// which texts are read, nor of what is read from them.
#[verifier::external_body]
fn read_value(text: &str) -> (r: Result<Value, String>)
    ensures
        read_view(r) == json_parse(text@),
{
    match serde_json::from_str::<Value>(text) {
        Ok(v) => Ok(v),
        Err(e) => Err(e.to_string()),
    }
}

/// Moves a `serde_json::Value` into a `Json`, variant by variant: an
/// integer that `as_u64` or `as_i64` hands out as that integer, any other
/// number as the text that its `Display` writes, the members of an object
/// in the order in which its map hands them out.
///
/// Trusted: the result holds what the value holds.
#[verifier::external_body]
fn from_value(v: Value) -> (r: Json)
    ensures
        r@ == value_json(v),
{
    match v {
        Value::Null => Json::Null,
        Value::Bool(b) => Json::Bool(b),
        Value::Number(n) => Json::Number(match (n.as_u64(), n.as_i64()) {
            (Some(u), _) => JsonNumber::PosInt(u),
            (_, Some(i)) => JsonNumber::NegInt(i),
            _ => JsonNumber::Real(n.to_string()),
        }),
        Value::String(s) => Json::String(s),
        Value::Array(a) => Json::Array(a.into_iter().map(from_value).collect()),
        Value::Object(o) => Json::Object(o.into_iter().map(|(k, x)| (k, from_value(x))).collect()),
    }
}

/// Moves a `Json` into a `serde_json::Value`, variant by variant: integers
/// through `Value::from`, a decimal notation through the number parser of
/// `serde_json`, which gives `null` for a text that is no number, and the
/// members of an object inserted into its map in their order, so that a
/// later member replaces an earlier one with the same key.
///
/// Trusted: the text of the result depends on the document's value alone.
#[verifier::external_body]
fn to_value(j: &Json) -> (r: Value)
    ensures
        value_text(r) == json_text(j@),
{
    match j {
        Json::Null => Value::Null,
        Json::Bool(b) => Value::Bool(*b),
        Json::Number(JsonNumber::PosInt(u)) => Value::from(*u),
        Json::Number(JsonNumber::NegInt(i)) => Value::from(*i),
        Json::Number(JsonNumber::Real(t)) => serde_json::from_str(t).map_or(Value::Null, Value::Number),
        Json::String(s) => Value::String(s.clone()),
        Json::Array(a) => Value::Array(a.iter().map(to_value).collect()),
        Json::Object(o) => Value::Object(o.iter().map(|(k, x)| (k.clone(), to_value(x))).collect()),
    }
}

/// Calls `to_string` on a `serde_json::Value`.
///
/// Trusted: the result is the text of the value.
#[verifier::external_body]
fn write_value(v: &Value) -> (r: String)
    ensures
        r@ == value_text(*v),
{
    v.to_string()
}

} // verus!

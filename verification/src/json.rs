//! JSON values as the supervisor sends them: read with serde_json, looked
//! into the way serde_json's `Value` indexing does, and written back as
//! serde_json writes them.
use crate::text::{cat, decimal, owned, str_eq, u64_to_decimal};
use crate::version::{json_quoted, json_quoted_of};
use serde_json::Value;
use vstd::prelude::*;

verus! {

#[verifier::external_type_specification]
#[verifier::external_body]
pub struct ExJsonValue(serde_json::Value);

/// A JSON number as serde_json holds it: a non-negative integer, a negative
/// one, or a float, kept as the text serde_json writes for it.
#[derive(Debug)]
pub enum JsonNumber {
    PosInt(u64),
    NegInt(i64),
    Float(String),
}

/// A JSON value; an object keeps its members in the order serde_json's map
/// hands them out (by key).
#[derive(Debug)]
pub enum Json {
    Null,
    Bool(bool),
    Number(JsonNumber),
    Str(String),
    Array(Vec<Json>),
    Object(Vec<(String, Json)>),
}

pub enum NumberView {
    PosInt(u64),
    NegInt(i64),
    Float(Seq<char>),
}

#[verifier::ext_equal]
pub enum JsonView {
    Null,
    Bool(bool),
    Number(NumberView),
    Str(Seq<char>),
    Array(Seq<JsonView>),
    Object(Seq<(Seq<char>, JsonView)>),
}

pub open spec fn number_view(n: JsonNumber) -> NumberView {
    match n {
        JsonNumber::PosInt(u) => NumberView::PosInt(u),
        JsonNumber::NegInt(i) => NumberView::NegInt(i),
        JsonNumber::Float(t) => NumberView::Float(t@),
    }
}

pub open spec fn json_view(j: Json) -> JsonView
    decreases j,
{
    match j {
        Json::Null => JsonView::Null,
        Json::Bool(b) => JsonView::Bool(b),
        Json::Number(n) => JsonView::Number(number_view(n)),
        Json::Str(s) => JsonView::Str(s@),
        Json::Array(v) => JsonView::Array(
            Seq::new(v@.len(), |i: int| if 0 <= i < v@.len() { json_view(v@[i]) } else { JsonView::Null }),
        ),
        Json::Object(v) => JsonView::Object(
            Seq::new(
                v@.len(),
                |i: int|
                    if 0 <= i < v@.len() {
                        (v@[i].0@, json_view(v@[i].1))
                    } else {
                        (Seq::empty(), JsonView::Null)
                    },
            ),
        ),
    }
}

impl View for Json {
    type V = JsonView;

    open spec fn view(&self) -> JsonView {
        json_view(*self)
    }
}

/// The value serde_json reads from a text (`serde_json::from_str` into a
/// `Value`), or its error message.
pub uninterp spec fn json_of(text: Seq<char>) -> Result<JsonView, Seq<char>>;

pub open spec fn json_result_view(r: Result<Json, String>) -> Result<JsonView, Seq<char>> {
    match r {
        Ok(j) => Ok(j@),
        Err(e) => Err(e@),
    }
}

/// A serde_json value as a `Json`, one for one: each variant to its own,
/// a number by serde_json's own reading of it as `u64`, else `i64`, else its
/// text, an object's members in the order its map gives them.
#[verifier::external_body]
fn json_from_value(v: Value) -> Json {
    match v {
        Value::Null => Json::Null,
        Value::Bool(b) => Json::Bool(b),
        Value::Number(n) => Json::Number(match (n.as_u64(), n.as_i64()) {
            (Some(u), _) => JsonNumber::PosInt(u),
            (_, Some(i)) => JsonNumber::NegInt(i),
            _ => JsonNumber::Float(n.to_string()),
        }),
        Value::String(s) => Json::Str(s),
        Value::Array(a) => Json::Array(a.into_iter().map(json_from_value).collect()),
        Value::Object(m) => Json::Object(m.into_iter().map(|(k, x)| (k, json_from_value(x))).collect()),
    }
}

/// Reads a JSON text (`serde_json::from_str::<Value>`): the value, or the
/// parser's error message.
#[verifier::external_body]
pub fn parse_json(text: &str) -> (r: Result<Json, String>)
    ensures
        json_result_view(r) == json_of(text@),
{
    match serde_json::from_str::<serde_json::Value>(text) {
        Ok(v) => Ok(json_from_value(v)),
        Err(e) => Err(e.to_string()),
    }
}

// ---------------------------------------------------------------- looking in

/// The value of the last member named `key`.
pub open spec fn member(es: Seq<(Seq<char>, JsonView)>, key: Seq<char>) -> Option<JsonView>
    decreases es.len(),
{
    if es.len() == 0 {
        None
    } else if es.last().0 == key {
        Some(es.last().1)
    } else {
        member(es.drop_last(), key)
    }
}

/// `v[key]`: the member's value, `null` where `v` is no object or has no
/// such member.
pub open spec fn at(v: JsonView, key: Seq<char>) -> JsonView {
    match v {
        JsonView::Object(es) => match member(es, key) {
            Some(x) => x,
            None => JsonView::Null,
        },
        _ => JsonView::Null,
    }
}

pub open spec fn as_bool(v: JsonView) -> Option<bool> {
    match v {
        JsonView::Bool(b) => Some(b),
        _ => None,
    }
}

pub open spec fn as_u64(v: JsonView) -> Option<u64> {
    match v {
        JsonView::Number(NumberView::PosInt(u)) => Some(u),
        _ => None,
    }
}

pub open spec fn as_str(v: JsonView) -> Option<Seq<char>> {
    match v {
        JsonView::Str(s) => Some(s),
        _ => None,
    }
}

/// `v == 1`: the number one as an integer.
pub open spec fn is_one(v: JsonView) -> bool {
    v == JsonView::Number(NumberView::PosInt(1))
}

pub open spec fn is_object(v: JsonView) -> bool {
    v is Object
}

/// `v[key]`.
pub fn get<'a>(v: &'a Json, key: &str) -> (r: Option<&'a Json>)
    ensures
        match r {
            Some(x) => x@ == at(v@, key@),
            None => at(v@, key@) == JsonView::Null,
        },
{
    match v {
        Json::Object(es) => {
            let ghost ev = match v@ {
                JsonView::Object(e) => e,
                _ => Seq::empty(),
            };
            assert(ev.len() == es@.len());
            let mut found: Option<usize> = None;
            let mut i: usize = 0;
            while i < es.len()
                invariant
                    i <= es@.len(),
                    ev.len() == es@.len(),
                    forall|k: int| 0 <= k < es@.len() ==> #[trigger] ev[k] == (es@[k].0@, json_view(es@[k].1)),
                    match found {
                        Some(k) => k < i && member(ev.subrange(0, i as int), key@) == Some(ev[k as int].1),
                        None => member(ev.subrange(0, i as int), key@) is None,
                    },
                decreases es.len() - i,
            {
                assert(ev.subrange(0, i + 1).drop_last() =~= ev.subrange(0, i as int));
                assert(ev[i as int] == (es@[i as int].0@, json_view(es@[i as int].1)));
                if str_eq(es[i].0.as_str(), key) {
                    found = Some(i);
                }
                i = i + 1;
            }
            assert(ev.subrange(0, es@.len() as int) =~= ev);
            match found {
                Some(k) => Some(&es[k].1),
                None => None,
            }
        },
        _ => None,
    }
}

// ---------------------------------------------------------------- writing

pub open spec fn number_text(n: NumberView) -> Seq<char> {
    match n {
        NumberView::PosInt(u) => decimal(u as nat),
        NumberView::NegInt(i) => if i < 0 {
            "-"@ + decimal((-i) as nat)
        } else {
            decimal(i as nat)
        },
        NumberView::Float(t) => t,
    }
}

/// The compact text serde_json writes for a value (`Value`'s `to_string`):
/// no spaces, strings quoted and escaped, members as `"key":value`.
pub open spec fn text_of(v: JsonView) -> Seq<char>
    decreases v, 0nat,
{
    match v {
        JsonView::Null => "null"@,
        JsonView::Bool(b) => if b {
            "true"@
        } else {
            "false"@
        },
        JsonView::Number(n) => number_text(n),
        JsonView::Str(s) => json_quoted_of(s),
        JsonView::Array(items) => "["@ + items_text(items) + "]"@,
        JsonView::Object(es) => "{"@ + members_text(es) + "}"@,
    }
}

/// The items of an array, comma-separated.
pub open spec fn items_text(items: Seq<JsonView>) -> Seq<char>
    decreases items, 1nat,
{
    if items.len() == 0 {
        Seq::empty()
    } else {
        items_text(items.drop_last()) + (if items.len() > 1 {
            ","@
        } else {
            Seq::<char>::empty()
        }) + text_of(items.last())
    }
}

/// The members of an object, comma-separated.
pub open spec fn members_text(es: Seq<(Seq<char>, JsonView)>) -> Seq<char>
    decreases es, 1nat,
{
    if es.len() == 0 {
        Seq::empty()
    } else {
        members_text(es.drop_last()) + (if es.len() > 1 {
            ","@
        } else {
            Seq::<char>::empty()
        }) + json_quoted_of(es.last().0) + ":"@ + text_of(es.last().1)
    }
}

fn number_text_exec(n: &JsonNumber) -> (r: String)
    ensures
        r@ == number_text(number_view(*n)),
{
    match n {
        JsonNumber::PosInt(u) => u64_to_decimal(*u),
        JsonNumber::NegInt(i) => {
            if *i < 0 {
                let magnitude: u64 = (-(*i as i128)) as u64;
                let digits = u64_to_decimal(magnitude);
                cat("-", digits.as_str())
            } else {
                u64_to_decimal(*i as u64)
            }
        },
        JsonNumber::Float(t) => owned(t.as_str()),
    }
}

/// The compact JSON text of a value, as serde_json writes it.
#[verifier::rlimit(40)]
pub fn json_text(j: &Json) -> (r: String)
    ensures
        r@ == text_of(j@),
    decreases j,
{
    match j {
        Json::Null => owned("null"),
        Json::Bool(b) => if *b {
            owned("true")
        } else {
            owned("false")
        },
        Json::Number(n) => number_text_exec(n),
        Json::Str(s) => json_quoted(s.as_str()),
        Json::Array(items) => {
            let ghost iv = match j@ {
                JsonView::Array(x) => x,
                _ => Seq::empty(),
            };
            let mut out = owned("[");
            let mut i: usize = 0;
            assert(iv.subrange(0, 0) =~= Seq::<JsonView>::empty());
            while i < items.len()
                invariant
                    i <= items@.len(),
                    iv.len() == items@.len(),
                    forall|k: int| 0 <= k < items@.len() ==> #[trigger] iv[k] == json_view(items@[k]),
                    out@ == "["@ + items_text(iv.subrange(0, i as int)),
                    *j == Json::Array(*items),
                decreases items.len() - i,
            {
                assert(decreases_to!(*j => (*j)->Array_0));
                assert((*j)->Array_0 == *items);
                assert(decreases_to!(*items => items@));
                assert(decreases_to!(items@ => items@[i as int]));
                assert(decreases_to!(*j => items@[i as int]));
                if i > 0 {
                    out.append(",");
                }
                let t = json_text(&items[i]);
                out.append(t.as_str());
                let ghost pre = iv.subrange(0, i + 1);
                assert(pre.drop_last() =~= iv.subrange(0, i as int));
                assert(pre.last() == iv[i as int]);
                assert(out@ =~= "["@ + items_text(pre));
                i = i + 1;
            }
            assert(iv.subrange(0, items@.len() as int) =~= iv);
            out.append("]");
            out
        },
        Json::Object(es) => {
            let ghost ev = match j@ {
                JsonView::Object(x) => x,
                _ => Seq::empty(),
            };
            let mut out = owned("{");
            let mut i: usize = 0;
            assert(ev.subrange(0, 0) =~= Seq::<(Seq<char>, JsonView)>::empty());
            while i < es.len()
                invariant
                    i <= es@.len(),
                    ev.len() == es@.len(),
                    forall|k: int| 0 <= k < es@.len() ==> #[trigger] ev[k] == (es@[k].0@, json_view(es@[k].1)),
                    out@ == "{"@ + members_text(ev.subrange(0, i as int)),
                    *j == Json::Object(*es),
                decreases es.len() - i,
            {
                assert(decreases_to!(*j => (*j)->Object_0));
                assert((*j)->Object_0 == *es);
                assert(decreases_to!(*es => es@));
                assert(decreases_to!(es@ => es@[i as int]));
                assert(decreases_to!(es@[i as int] => es@[i as int].1));
                assert(decreases_to!(*j => es@[i as int].1));
                if i > 0 {
                    out.append(",");
                }
                let k = json_quoted(es[i].0.as_str());
                out.append(k.as_str());
                out.append(":");
                let t = json_text(&es[i].1);
                out.append(t.as_str());
                let ghost pre = ev.subrange(0, i + 1);
                assert(pre.drop_last() =~= ev.subrange(0, i as int));
                assert(pre.last() == ev[i as int]);
                assert(out@ =~= "{"@ + members_text(pre));
                i = i + 1;
            }
            assert(ev.subrange(0, es@.len() as int) =~= ev);
            out.append("}");
            out
        },
    }
}

// ---------------------------------------------------------------- reading members

/// `v[key] == true`.
pub fn member_is_true(v: &Json, key: &str) -> (r: bool)
    ensures
        r == (at(v@, key@) == JsonView::Bool(true)),
{
    match get(v, key) {
        Some(Json::Bool(b)) => *b,
        _ => false,
    }
}

/// `v[key] == 1`.
pub fn member_is_one(v: &Json, key: &str) -> (r: bool)
    ensures
        r == is_one(at(v@, key@)),
{
    match get(v, key) {
        Some(Json::Number(JsonNumber::PosInt(u))) => *u == 1,
        Some(Json::Number(JsonNumber::NegInt(_))) => false,
        Some(Json::Number(JsonNumber::Float(_))) => false,
        _ => false,
    }
}

/// `v[key].as_bool()`.
pub fn member_bool(v: &Json, key: &str) -> (r: Option<bool>)
    ensures
        r == as_bool(at(v@, key@)),
{
    match get(v, key) {
        Some(Json::Bool(b)) => Some(*b),
        _ => None,
    }
}

/// `v[key].as_u64()`.
pub fn member_u64(v: &Json, key: &str) -> (r: Option<u64>)
    ensures
        r == as_u64(at(v@, key@)),
{
    match get(v, key) {
        Some(Json::Number(JsonNumber::PosInt(u))) => Some(*u),
        _ => None,
    }
}

/// `v[key].as_str()`, copied.
pub fn member_str(v: &Json, key: &str) -> (r: Option<String>)
    ensures
        match r {
            Some(s) => as_str(at(v@, key@)) == Some(s@),
            None => as_str(at(v@, key@)) is None,
        },
{
    match get(v, key) {
        Some(Json::Str(s)) => Some(owned(s.as_str())),
        _ => None,
    }
}

/// `v[key].is_string()`.
pub fn member_is_str(v: &Json, key: &str) -> (r: bool)
    ensures
        r == (at(v@, key@) is Str),
{
    match get(v, key) {
        Some(Json::Str(_)) => true,
        _ => false,
    }
}

/// `v[key].is_object()`.
pub fn member_is_object(v: &Json, key: &str) -> (r: bool)
    ensures
        r == (at(v@, key@) is Object),
{
    match get(v, key) {
        Some(Json::Object(_)) => true,
        _ => false,
    }
}

/// The JSON text of `v[key]` (`null` where there is none).
pub fn member_text(v: &Json, key: &str) -> (r: String)
    ensures
        r@ == text_of(at(v@, key@)),
{
    match get(v, key) {
        Some(x) => json_text(x),
        None => owned("null"),
    }
}

} // verus!

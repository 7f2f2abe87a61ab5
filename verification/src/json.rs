//! JSON documents. The documents themselves are `serde_json` values; contracts
//! speak of the tree that such a value holds.
use vstd::prelude::*;
use crate::text::{decimal, decimal_text};

verus! {

/// `serde_json::Value`, an opaque JSON document.
#[verifier::external_type_specification]
#[verifier::external_body]
pub struct ExJsonValue(serde_json::Value);

/// What a JSON document holds. A number is given by its JSON text.
pub enum JsonView {
    Null,
    Bool(bool),
    Number(Seq<char>),
    Text(Seq<char>),
    Array(Seq<JsonView>),
    Object(Map<Seq<char>, JsonView>),
}

/// The contents of a `serde_json::Value`.
pub uninterp spec fn json_view(v: serde_json::Value) -> JsonView;

/// The text that `serde_json::to_string_pretty` writes for a document.
pub uninterp spec fn json_pretty_text(v: JsonView) -> Seq<char>;

/// The text that `serde_json::to_string` writes for a document.
pub uninterp spec fn json_compact_text(v: JsonView) -> Seq<char>;

/// The document that `serde_json::from_str` reads from a text, where it reads one.
pub uninterp spec fn json_parsed(text: Seq<char>) -> Option<JsonView>;

/// The members of an object that is built from `fields` in order: of two fields with
/// one name the later stays.
pub open spec fn members(fields: Seq<(Seq<char>, JsonView)>) -> Map<Seq<char>, JsonView>
    decreases fields.len(),
{
    if fields.len() == 0 {
        Map::empty()
    } else {
        members(fields.drop_last()).insert(fields.last().0, fields.last().1)
    }
}

pub open spec fn object(fields: Seq<(Seq<char>, JsonView)>) -> JsonView {
    JsonView::Object(members(fields))
}

/// A decimal number, with a minus sign where it is negative.
pub open spec fn signed_decimal(n: int) -> Seq<char> {
    if n < 0 {
        seq!['-'] + decimal((-n) as nat)
    } else {
        decimal(n as nat)
    }
}

/// A number in decimal, with a minus sign where it is negative.
pub fn signed_text(n: i64) -> (r: String)
    ensures
        r@ == signed_decimal(n as int),
{
    if n < 0 {
        let mut out: String = String::new();
        out.push('-');
        out.append(decimal_text((-(n as i128)) as u128).as_str());
        assert(out@ =~= signed_decimal(n as int));
        out
    } else {
        decimal_text(n as u128)
    }
}

pub open spec fn number(n: int) -> JsonView {
    JsonView::Number(signed_decimal(n))
}

/// The document for an optional text: the text, or null.
pub open spec fn text_or_null(o: Option<Seq<char>>) -> JsonView {
    match o {
        Some(s) => JsonView::Text(s),
        None => JsonView::Null,
    }
}

pub open spec fn views(vs: Seq<serde_json::Value>) -> Seq<JsonView> {
    vs.map_values(|v: serde_json::Value| json_view(v))
}

pub open spec fn field_views(fs: Seq<(String, serde_json::Value)>) -> Seq<(Seq<char>, JsonView)> {
    fs.map_values(|f: (String, serde_json::Value)| (f.0@, json_view(f.1)))
}

/// The member `key` of an object; nothing else has members.
pub open spec fn member(v: JsonView, key: Seq<char>) -> Option<JsonView> {
    match v {
        JsonView::Object(m) => if m.contains_key(key) {
            Some(m[key])
        } else {
            None
        },
        _ => None,
    }
}

pub open spec fn as_text(v: JsonView) -> Option<Seq<char>> {
    match v {
        JsonView::Text(s) => Some(s),
        _ => None,
    }
}

// ── Calls into serde_json ─────────────────────────────────────────────────────

/// `serde_json::Value::Null` is the null document.
#[verifier::external_body]
pub(crate) fn json_null() -> (r: serde_json::Value)
    ensures
        json_view(r) == JsonView::Null,
{
    serde_json::Value::Null
}

/// `serde_json::Value::from` on a string slice is a text with the same characters.
#[verifier::external_body]
pub(crate) fn json_text(s: &str) -> (r: serde_json::Value)
    ensures
        json_view(r) == JsonView::Text(s@),
{
    serde_json::Value::from(s)
}

/// `serde_json::Value::from` on an integer is that number; JSON writes it in decimal.
#[verifier::external_body]
pub(crate) fn json_number(n: i64) -> (r: serde_json::Value)
    ensures
        json_view(r) == number(n as int),
{
    serde_json::Value::from(n)
}

/// `serde_json::Value::from` on a vector is the array of its items in order.
#[verifier::external_body]
pub(crate) fn json_array(items: Vec<serde_json::Value>) -> (r: serde_json::Value)
    ensures
        json_view(r) == JsonView::Array(views(items@)),
{
    serde_json::Value::from(items)
}

/// `serde_json::Value::from_iter` on pairs is the object that holds each name with
/// the last document given for it.
#[verifier::external_body]
pub(crate) fn json_object(fields: Vec<(String, serde_json::Value)>) -> (r: serde_json::Value)
    ensures
        json_view(r) == object(field_views(fields@)),
{
    serde_json::Value::from_iter(fields)
}

/// `serde_json::Value::clone` holds what the value holds.
#[verifier::external_body]
pub(crate) fn json_copy(v: &serde_json::Value) -> (r: serde_json::Value)
    ensures
        json_view(r) == json_view(*v),
{
    v.clone()
}

/// `serde_json::Value::get` with a name is that member of an object, and nothing for
/// any other document.
#[verifier::external_body]
pub(crate) fn json_get<'a>(v: &'a serde_json::Value, key: &str) -> (r: Option<&'a serde_json::Value>)
    ensures
        match r {
            Some(w) => member(json_view(*v), key@) == Some(json_view(*w)),
            None => member(json_view(*v), key@) is None,
        },
{
    v.get(key)
}

/// `serde_json::Value::as_str` is the text of a text document.
#[verifier::external_body]
pub(crate) fn json_as_str<'a>(v: &'a serde_json::Value) -> (r: Option<&'a str>)
    ensures
        match r {
            Some(s) => as_text(json_view(*v)) == Some(s@),
            None => as_text(json_view(*v)) is None,
        },
{
    v.as_str()
}

/// `serde_json::from_str` reads a document, or refuses the text; which of the two,
/// and which document, depends on the text alone.
#[verifier::external_body]
pub(crate) fn json_parse(text: &str) -> (r: Option<serde_json::Value>)
    ensures
        match r {
            Some(v) => json_parsed(text@) == Some(json_view(v)),
            None => json_parsed(text@) is None,
        },
{
    serde_json::from_str(text).ok()
}

/// `serde_json::to_string_pretty` writes a text that depends on the document alone:
/// object members are kept sorted by name.
#[verifier::external_body]
pub(crate) fn json_pretty(v: &serde_json::Value) -> (r: String)
    ensures
        r@ == json_pretty_text(json_view(*v)),
{
    serde_json::to_string_pretty(v).unwrap_or_default()
}

/// `serde_json::to_string` writes a text that depends on the document alone: object
/// members are kept sorted by name.
#[verifier::external_body]
pub(crate) fn json_compact(v: &serde_json::Value) -> (r: String)
    ensures
        r@ == json_compact_text(json_view(*v)),
{
    serde_json::to_string(v).unwrap_or_default()
}

// ── Building documents ────────────────────────────────────────────────────────

/// One member of an object under construction.
pub(crate) fn field(key: &str, v: serde_json::Value) -> (r: (String, serde_json::Value))
    ensures
        r.0@ == key@,
        r.1 == v,
{
    (key.to_owned(), v)
}

pub(crate) fn json_opt(o: &Option<String>) -> (r: serde_json::Value)
    ensures
        json_view(r) == text_or_null(crate::text::opt_view(*o)),
{
    match o {
        Some(s) => json_text(s.as_str()),
        None => json_null(),
    }
}

pub(crate) fn json_texts(items: &[String]) -> (r: serde_json::Value)
    ensures
        json_view(r) == JsonView::Array(items@.map_values(|s: String| JsonView::Text(s@))),
{
    let mut out: Vec<serde_json::Value> = Vec::new();
    let mut i: usize = 0;
    while i < items.len()
        invariant
            i <= items@.len(),
            out@.len() == i,
            forall|k: int| 0 <= k < i ==> json_view(#[trigger] out@[k]) == JsonView::Text(items@[k]@),
        decreases items@.len() - i,
    {
        out.push(json_text(items[i].as_str()));
        i = i + 1;
    }
    assert(views(out@) =~= items@.map_values(|s: String| JsonView::Text(s@)));
    json_array(out)
}

/// The last field with a name is the member of that name.
pub proof fn lemma_member(fields: Seq<(Seq<char>, JsonView)>, i: int)
    requires
        0 <= i < fields.len(),
        forall|j: int| i < j < fields.len() ==> (#[trigger] fields[j]).0 != fields[i].0,
    ensures
        member(object(fields), fields[i].0) == Some(fields[i].1),
    decreases fields.len(),
{
    if i < fields.len() - 1 {
        let rest = fields.drop_last();
        assert(fields[fields.len() - 1].0 != fields[i].0);
        assert forall|j: int| i < j < rest.len() implies (#[trigger] rest[j]).0 != rest[i].0 by {
            assert(rest[j] == fields[j]);
        }
        lemma_member(rest, i);
    }
}

/// The order in which the members of an object are given does not matter: two members
/// with different names can change places.
pub proof fn law_member_order_does_not_matter(
    before: Seq<(Seq<char>, JsonView)>,
    a: (Seq<char>, JsonView),
    b: (Seq<char>, JsonView),
    after: Seq<(Seq<char>, JsonView)>,
)
    requires
        a.0 != b.0,
    ensures
        object(before.push(a).push(b) + after) == object(before.push(b).push(a) + after),
        json_compact_text(object(before.push(a).push(b) + after)) == json_compact_text(
            object(before.push(b).push(a) + after),
        ),
    decreases after.len(),
{
    let x = before.push(a).push(b);
    let y = before.push(b).push(a);
    if after.len() == 0 {
        assert(x + after =~= x);
        assert(y + after =~= y);
        assert(x.drop_last() =~= before.push(a));
        assert(y.drop_last() =~= before.push(b));
        assert(before.push(a).drop_last() =~= before);
        assert(before.push(b).drop_last() =~= before);
        assert(members(before.push(a)) == members(before).insert(a.0, a.1));
        assert(members(before.push(b)) == members(before).insert(b.0, b.1));
        assert(members(x) =~= members(y));
    } else {
        law_member_order_does_not_matter(before, a, b, after.drop_last());
        assert((x + after).drop_last() =~= x + after.drop_last());
        assert((y + after).drop_last() =~= y + after.drop_last());
    }
}

} // verus!

//! The arguments of a tool call: the fields of a JSON object.

use vstd::prelude::*;
use crate::text::same_text;

verus! {

/// The value of a field.
#[derive(Debug)]
pub enum FieldValue {
    Text(String),
    Flag(bool),
    /// Any other value, as JSON text.
    Other(String),
}

/// What a field's value says.
pub enum FieldView {
    Text(Seq<char>),
    Flag(bool),
    Other(Seq<char>),
}

impl View for FieldValue {
    type V = FieldView;

    open spec fn view(&self) -> FieldView {
        match self {
            FieldValue::Text(s) => FieldView::Text(s@),
            FieldValue::Flag(b) => FieldView::Flag(*b),
            FieldValue::Other(s) => FieldView::Other(s@),
        }
    }
}

/// A field of a JSON object.
#[derive(Debug)]
pub struct Field {
    pub name: String,
    pub value: FieldValue,
}

/// The fields of an object by name and value.
pub open spec fn field_views(v: Seq<Field>) -> Seq<(Seq<char>, FieldView)> {
    v.map_values(|f: Field| (f.name@, f.value@))
}

/// A JSON value: an object with its fields, or any other.
#[derive(Debug)]
pub enum JsonValue {
    Object(Vec<Field>),
    Plain(FieldValue),
}

/// What a JSON value says.
pub enum JsonView {
    Object(Seq<(Seq<char>, FieldView)>),
    Plain(FieldView),
}

impl View for JsonValue {
    type V = JsonView;

    open spec fn view(&self) -> JsonView {
        match self {
            JsonValue::Object(fields) => JsonView::Object(field_views(fields@)),
            JsonValue::Plain(v) => JsonView::Plain(v@),
        }
    }
}

/// The value that a JSON text holds, or why it is no JSON text.
pub uninterp spec fn json_value(s: Seq<char>) -> Result<JsonView, Seq<char>>;

/// `serde_json::from_str` into a `serde_json::Value`: both the value and the message of the error
/// are functions of the text alone. A list, a number or null is given as its JSON text.
#[verifier::external_body]
fn parse_json(s: &str) -> (r: Result<JsonValue, String>)
    ensures
        match r {
            Ok(v) => json_value(s@) == Ok::<JsonView, Seq<char>>(v@),
            Err(e) => json_value(s@) == Err::<JsonView, Seq<char>>(e@),
        },
{
    let plain = |v| match v {
        serde_json::Value::String(t) => FieldValue::Text(t),
        serde_json::Value::Bool(b) => FieldValue::Flag(b),
        other => FieldValue::Other(other.to_string()),
    };
    match serde_json::from_str::<serde_json::Value>(s) {
        Ok(serde_json::Value::Object(map)) => Ok(JsonValue::Object(
            map.into_iter().map(|(name, v)| Field { name, value: plain(v) }).collect(),
        )),
        Ok(v) => Ok(JsonValue::Plain(plain(v))),
        Err(e) => Err(e.to_string()),
    }
}

/// The fields of the object that a JSON text holds (none, for any other value), or why it is no JSON
/// text.
pub open spec fn json_object(s: Seq<char>) -> Result<Seq<(Seq<char>, FieldView)>, Seq<char>> {
    match json_value(s) {
        Ok(JsonView::Object(fields)) => Ok(fields),
        Ok(JsonView::Plain(_)) => Ok(Seq::empty()),
        Err(e) => Err(e),
    }
}

/// The fields of a value: a value that is no object has none.
pub fn fields_of(v: JsonValue) -> (r: Vec<Field>)
    ensures
        field_views(r@) == (match v@ {
            JsonView::Object(fields) => fields,
            JsonView::Plain(_) => Seq::empty(),
        }),
{
    match v {
        JsonValue::Object(fields) => fields,
        JsonValue::Plain(_) => {
            let r: Vec<Field> = Vec::new();
            assert(field_views(r@) =~= Seq::empty());
            r
        },
    }
}

/// The arguments that a JSON text writes.
pub fn parse_arguments(s: &str) -> (r: Result<Vec<Field>, String>)
    ensures
        match r {
            Ok(fields) => json_object(s@) == Ok::<Seq<(Seq<char>, FieldView)>, Seq<char>>(
                field_views(fields@),
            ),
            Err(e) => json_object(s@) == Err::<Seq<(Seq<char>, FieldView)>, Seq<char>>(e@),
        },
{
    match parse_json(s) {
        Ok(v) => Ok(fields_of(v)),
        Err(e) => Err(e),
    }
}

/// The value of the first field with the given name.
pub open spec fn field(v: Seq<(Seq<char>, FieldView)>, name: Seq<char>) -> Option<FieldView>
    decreases v.len(),
{
    if v.len() == 0 {
        None
    } else if v[0].0 == name {
        Some(v[0].1)
    } else {
        field(v.drop_first(), name)
    }
}

/// The text of a field that holds a string.
pub open spec fn as_text(v: Option<FieldView>) -> Option<Seq<char>> {
    match v {
        Some(FieldView::Text(s)) => Some(s),
        _ => None,
    }
}

/// The flag of a field that holds a truth value.
pub open spec fn as_flag(v: Option<FieldView>) -> Option<bool> {
    match v {
        Some(FieldView::Flag(b)) => Some(b),
        _ => None,
    }
}

/// The first of the two that is there.
pub open spec fn either<T>(a: Option<T>, b: Option<T>) -> Option<T> {
    match a {
        Some(_) => a,
        None => b,
    }
}

/// What an optional field value says.
pub open spec fn value_view(v: Option<&FieldValue>) -> Option<FieldView> {
    match v {
        Some(x) => Some(x@),
        None => None,
    }
}

/// The value of the field with the given name.
pub fn get<'a>(v: &'a Vec<Field>, name: &str) -> (r: Option<&'a FieldValue>)
    ensures
        value_view(r) == field(field_views(v@), name@),
{
    let mut i: usize = 0;
    let ghost all = field_views(v@);
    assert(all.skip(0) =~= all);
    while i < v.len()
        invariant
            i <= v@.len(),
            all == field_views(v@),
            field(all, name@) == field(all.skip(i as int), name@),
        decreases v@.len() - i,
    {
        assert(all.skip(i as int).drop_first() =~= all.skip(i + 1));
        assert(all.skip(i as int)[0] == all[i as int]);
        if same_text(v[i].name.as_str(), name) {
            return Some(&v[i].value);
        }
        i += 1;
    }
    None
}

/// The first of the two that is there.
pub fn first_of<'a>(a: Option<&'a FieldValue>, b: Option<&'a FieldValue>) -> (r: Option<
    &'a FieldValue,
>)
    ensures
        value_view(r) == either(value_view(a), value_view(b)),
{
    match a {
        Some(_) => a,
        None => b,
    }
}

/// The text of a value that is a string.
pub fn text_value(v: Option<&FieldValue>) -> (r: Option<String>)
    ensures
        r is Some <==> as_text(value_view(v)) is Some,
        r is Some ==> as_text(value_view(v)) == Some(r->0@),
{
    match v {
        Some(FieldValue::Text(s)) => Some(s.clone()),
        _ => None,
    }
}

/// The flag of a value that is a truth value.
pub fn flag_value(v: Option<&FieldValue>) -> (r: Option<bool>)
    ensures
        r == as_flag(value_view(v)),
{
    match v {
        Some(FieldValue::Flag(b)) => Some(*b),
        _ => None,
    }
}

/// The value of a field is that of the first with the name; there is none where no field has it.
pub proof fn law_field(v: Seq<(Seq<char>, FieldView)>, name: Seq<char>, k: int)
    ensures
        0 <= k < v.len() && v[k].0 == name && (forall|j: int|
            0 <= j < k ==> (#[trigger] v[j]).0 != name) ==> field(v, name) == Some(v[k].1),
        (forall|j: int| 0 <= j < v.len() ==> (#[trigger] v[j]).0 != name) ==> field(v, name) is None,
    decreases v.len(),
{
    if v.len() > 0 && v[0].0 != name {
        let rest = v.drop_first();
        law_field(rest, name, k - 1);
        assert(forall|j: int| 0 <= j < rest.len() ==> #[trigger] rest[j] == v[j + 1]);
    }
}

} // verus!

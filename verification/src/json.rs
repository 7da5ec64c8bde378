//! Objects as JSON text.

use vstd::prelude::*;
use crate::arguments::FieldView;
use crate::arguments::field;
use crate::arguments::json_object;
use crate::text::texts;

verus! {

/// A value in an object that is written.
#[derive(Debug)]
pub enum JsonLeaf {
    Null,
    Flag(bool),
    Text(String),
    Texts(Vec<String>),
}

/// What such a value says.
pub enum LeafView {
    Null,
    Flag(bool),
    Text(Seq<char>),
    Texts(Seq<Seq<char>>),
}

impl View for JsonLeaf {
    type V = LeafView;

    open spec fn view(&self) -> LeafView {
        match self {
            JsonLeaf::Null => LeafView::Null,
            JsonLeaf::Flag(b) => LeafView::Flag(*b),
            JsonLeaf::Text(s) => LeafView::Text(s@),
            JsonLeaf::Texts(v) => LeafView::Texts(texts(v@)),
        }
    }
}

/// A field of an object that is written.
#[derive(Debug)]
pub struct JsonField {
    pub name: String,
    pub value: JsonLeaf,
}

/// The fields of an object, by name and value.
pub open spec fn leaf_views(v: Seq<JsonField>) -> Seq<(Seq<char>, LeafView)> {
    v.map_values(|f: JsonField| (f.name@, f.value@))
}

/// The fields of each of the objects.
pub open spec fn object_views(v: Seq<Vec<JsonField>>) -> Seq<Seq<(Seq<char>, LeafView)>> {
    v.map_values(|o: Vec<JsonField>| leaf_views(o@))
}

/// The JSON text of an object with the given fields, and with a list of objects under a name; or why
/// there is none.
pub uninterp spec fn object_text(
    fields: Seq<(Seq<char>, LeafView)>,
    name: Seq<char>,
    objects: Seq<Seq<(Seq<char>, LeafView)>>,
) -> Result<Seq<char>, Seq<char>>;

/// Whether no two fields share a name, and none has the given one.
pub open spec fn names_differ(fields: Seq<(Seq<char>, LeafView)>, name: Seq<char>) -> bool {
    &&& forall|i: int| 0 <= i < fields.len() ==> (#[trigger] fields[i]).0 != name
    &&& forall|i: int, j: int|
        0 <= i < j < fields.len() ==> (#[trigger] fields[i]).0 != (#[trigger] fields[j]).0
}

/// What a text or a truth value reads as.
pub open spec fn read_as(v: LeafView) -> Option<FieldView> {
    match v {
        LeafView::Flag(b) => Some(FieldView::Flag(b)),
        LeafView::Text(s) => Some(FieldView::Text(s)),
        _ => None,
    }
}

/// Whether a JSON text reads as an object in which the fields say what they are to say.
pub open spec fn reads_back(text: Seq<char>, fields: Seq<(Seq<char>, LeafView)>) -> bool {
    &&& json_object(text) is Ok
    &&& forall|i: int|
        0 <= i < fields.len() && read_as((#[trigger] fields[i]).1) is Some ==> field(
            json_object(text)->Ok_0,
            fields[i].0,
        ) == read_as(fields[i].1)
}

/// `serde_json::to_string_pretty` on a `serde_json::Value` with the given fields: whether it gives a
/// text, and which, is a function of what the fields hold. `serde_json::from_str` reads texts and
/// truth values back as they are, where each field has a name of its own.
#[verifier::external_body]
pub(crate) fn write_object(
    fields: Vec<JsonField>,
    name: String,
    objects: Vec<Vec<JsonField>>,
) -> (r: Result<String, String>)
    ensures
        match r {
            Ok(t) => object_text(leaf_views(fields@), name@, object_views(objects@)) == Ok::<
                Seq<char>,
                Seq<char>,
            >(t@),
            Err(e) => object_text(leaf_views(fields@), name@, object_views(objects@)) == Err::<
                Seq<char>,
                Seq<char>,
            >(e@),
        },
        r is Ok && names_differ(leaf_views(fields@), name@) ==> reads_back(
            r->Ok_0@,
            leaf_views(fields@),
        ),
{
    let leaf = |f: JsonField| (f.name, match f.value {
        JsonLeaf::Null => serde_json::Value::Null,
        JsonLeaf::Flag(b) => serde_json::Value::Bool(b),
        JsonLeaf::Text(s) => serde_json::Value::String(s),
        JsonLeaf::Texts(v) => serde_json::Value::from(v),
    });
    let list: Vec<serde_json::Value> =
        objects.into_iter().map(|o| o.into_iter().map(leaf).collect()).collect();
    let list = (name, serde_json::Value::Array(list));
    let all: serde_json::Value = fields.into_iter().map(leaf).chain([list]).collect();
    serde_json::to_string_pretty(&all).map_err(|e| e.to_string())
}

} // verus!

//! What the library reads from JSON texts: whether a text is JSON, the
//! contents of a JSON string, and the string fields of a JSON object.
use vstd::prelude::*;
use crate::sql_diff::types::opt_view;
use crate::text::str_eq;

verus! {

broadcast use vstd::string::group_string_axioms;

/// A JSON text as the library reads it.
#[derive(Debug)]
pub enum JsonShape {
    /// The text is not JSON.
    Invalid,
    /// A string, with its contents.
    Text(String),
    /// An object: each field's name, with its value where that is a string.
    Object(Vec<(String, Option<String>)>),
    /// Any other value.
    Other,
}

pub enum JsonShapeView {
    Invalid,
    Text(Seq<char>),
    Object(Seq<(Seq<char>, Option<Seq<char>>)>),
    Other,
}

pub open spec fn field_views(v: Seq<(String, Option<String>)>) -> Seq<(Seq<char>, Option<Seq<char>>)> {
    v.map_values(|f: (String, Option<String>)| (f.0@, opt_view(f.1)))
}

impl View for JsonShape {
    type V = JsonShapeView;

    open spec fn view(&self) -> JsonShapeView {
        match self {
            JsonShape::Invalid => JsonShapeView::Invalid,
            JsonShape::Text(s) => JsonShapeView::Text(s@),
            JsonShape::Object(fs) => JsonShapeView::Object(field_views(fs@)),
            JsonShape::Other => JsonShapeView::Other,
        }
    }
}

/// What `serde_json::from_str` reads from `text`, in the library's terms.
pub uninterp spec fn json_shape(text: Seq<char>) -> JsonShapeView;

/// Parses `text` with `serde_json::from_str` as a `serde_json::Value` and
/// describes it: invalid, a string, an object by its fields (each value
/// read with `Value::as_str`), or another value. The contract names the
/// result.
#[verifier::external_body]
pub(crate) fn read_json(text: &str) -> (r: JsonShape)
    ensures
        r@ == json_shape(text@),
{
    match serde_json::from_str::<serde_json::Value>(text) {
        Err(_) => JsonShape::Invalid,
        Ok(serde_json::Value::String(s)) => JsonShape::Text(s),
        Ok(serde_json::Value::Object(m)) => JsonShape::Object(
            m.into_iter().map(|(k, v)| (k, v.as_str().map(|s| s.to_string()))).collect(),
        ),
        Ok(_) => JsonShape::Other,
    }
}

/// The value of the first field named `key`, where it is a string.
pub open spec fn field_of(fields: Seq<(Seq<char>, Option<Seq<char>>)>, key: Seq<char>) -> Option<Seq<char>>
    decreases fields.len(),
{
    if fields.len() == 0 {
        None
    } else if fields[0].0 == key {
        fields[0].1
    } else {
        field_of(fields.drop_first(), key)
    }
}

/// What reading field `key` of a JSON text gives: nothing where the text is
/// not JSON; otherwise the field's string value, if the text is an object
/// with such a field.
pub open spec fn json_field(shape: JsonShapeView, key: Seq<char>) -> Option<Option<Seq<char>>> {
    match shape {
        JsonShapeView::Invalid => None,
        JsonShapeView::Object(fs) => Some(field_of(fs, key)),
        _ => Some(None),
    }
}

/// The string value of field `key` of a JSON text that was read as `shape`.
pub fn string_field(shape: &JsonShape, key: &str) -> (r: Option<String>)
    ensures
        Some(opt_view(r)) == json_field(shape@, key@) || (shape@ is Invalid && r is None),
{
    match shape {
        JsonShape::Object(fs) => {
            let ghost fv = field_views(fs@);
            let mut i: usize = 0;
            assert(fv.skip(0) =~= fv);
            while i < fs.len()
                invariant
                    i <= fs@.len(),
                    fv == field_views(fs@),
                    shape@ == JsonShapeView::Object(fv),
                    field_of(fv.skip(i as int), key@) == field_of(fv, key@),
                decreases fs@.len() - i,
            {
                proof {
                    assert(fv.skip(i as int).drop_first() =~= fv.skip(i + 1));
                    assert(fv.skip(i as int)[0] == (fs@[i as int].0@, opt_view(fs@[i as int].1)));
                }
                if str_eq(fs[i].0.as_str(), key) {
                    assert(field_of(fv.skip(i as int), key@) == opt_view(fs@[i as int].1));
                    return match &fs[i].1 {
                        Some(v) => Some(v.clone()),
                        None => None,
                    };
                }
                i = i + 1;
            }
            assert(fv.skip(i as int) =~= Seq::<(Seq<char>, Option<Seq<char>>)>::empty());
            None
        },
        _ => None,
    }
}

} // verus!

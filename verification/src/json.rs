//! JSON documents, read by the `serde_json` crate into plain values.

use vstd::prelude::*;

verus! {

/// `serde_json::Error`, the error of a text that is no JSON document.
#[verifier::external_type_specification]
#[verifier::external_body]
pub struct ExJsonError(serde_json::Error);

/// What the logic reads of one row of a JSON array of arrays: the number of
/// its items, the first and third item where they are strings, and the
/// second where it is an integer that an `i64` holds.
#[derive(Debug)]
pub struct JsonRow {
    pub fields: usize,
    pub first: Option<String>,
    pub second: Option<i64>,
    pub third: Option<String>,
}

/// Mathematical content of a [`JsonRow`].
pub type JsonRowView = (nat, Option<Seq<char>>, Option<i64>, Option<Seq<char>>);

/// The content of a row.
pub open spec fn row_view(row: JsonRow) -> JsonRowView {
    (
        row.fields as nat,
        match row.first {
            Some(text) => Some(text@),
            None => None,
        },
        row.second,
        match row.third {
            Some(text) => Some(text@),
            None => None,
        },
    )
}

/// The content of the rows of a document; `None` stands for an item of the
/// document that is no array.
pub open spec fn rows_view(rows: Seq<Option<JsonRow>>) -> Seq<Option<JsonRowView>> {
    rows.map_values(
        |row: Option<JsonRow>|
            match row {
                Some(r) => Some(row_view(r)),
                None => None,
            },
    )
}

/// The rows that `serde_json` reads from a text: those of the array that
/// the document is, none where the document is no array; `None` where the
/// text is no JSON document.
pub uninterp spec fn json_rows(text: Seq<char>) -> Option<Seq<Option<JsonRowView>>>;

/// The integer that `serde_json` reads from the member `key` of the object
/// that a text holds; the inner `None` where there is no such member or it
/// is no integer that an `i64` holds, the outer where the text is no JSON
/// document.
pub uninterp spec fn json_integer(text: Seq<char>, key: Seq<char>) -> Option<Option<i64>>;

/// Calls `serde_json::from_str` for a `Value`, then `Value::as_array`,
/// `as_str` and `as_i64` to take the rows out: the result is a function of
/// the text alone.
#[verifier::external_body]
pub(crate) fn read_rows(text: &str) -> (r: Result<Vec<Option<JsonRow>>, serde_json::Error>)
    ensures
        match r {
            Ok(rows) => json_rows(text@) == Some(rows_view(rows@)),
            Err(_) => json_rows(text@) is None,
        },
{
    let doc: serde_json::Value = serde_json::from_str(text)?;
    let rows = doc.as_array().cloned().unwrap_or_default();
    Ok(rows.iter().map(|row| row.as_array().map(|f| JsonRow {
        fields: f.len(),
        first: f.first().and_then(|v| v.as_str()).map(String::from),
        second: f.get(1).and_then(|v| v.as_i64()),
        third: f.get(2).and_then(|v| v.as_str()).map(String::from),
    })).collect())
}

/// Calls `serde_json::from_str` for a `Value`, then `Value::get`,
/// `as_number` and `Number::as_i64`: the result is a function of text and
/// key alone.
#[verifier::external_body]
pub(crate) fn read_integer(text: &str, key: &str) -> (r: Result<Option<i64>, serde_json::Error>)
    ensures
        match r {
            Ok(value) => json_integer(text@, key@) == Some(value),
            Err(_) => json_integer(text@, key@) is None,
        },
{
    let doc: serde_json::Value = serde_json::from_str(text)?;
    Ok(doc.get(key).and_then(|v| v.as_number()).and_then(|n| n.as_i64()))
}

} // verus!

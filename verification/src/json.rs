use vstd::prelude::*;

verus! {

/// `serde_json::Error`, the error of a JSON text that does not parse.
#[verifier::external_type_specification]
#[verifier::external_body]
pub struct ExJsonError(serde_json::Error);

/// The string fields of the objects in one array of a JSON document, read as
/// `serde_json::from_str::<Value>` followed by `Value::get`, `Value::as_array` and
/// `Value::as_str` read them.
///
/// `None` where the text is not JSON. Otherwise `Some(None)` where the document's member
/// `list_key` is missing or not an array, and else, for each element of that array in order,
/// for each of `keys` in order, the element's member of that name where it is a JSON string
/// (`None` where the element is no object, lacks the member, or holds another kind of value).
pub uninterp spec fn json_string_fields(
    txt: Seq<char>,
    list_key: Seq<char>,
    keys: Seq<Seq<char>>,
) -> Option<Option<Seq<Seq<Option<Seq<char>>>>>>;

/// The views of a table of optional texts.
pub open spec fn table_view(t: Seq<Vec<Option<String>>>) -> Seq<Seq<Option<Seq<char>>>> {
    t.map_values(|row: Vec<Option<String>>| row@.map_values(|f: Option<String>| f.deep_view()))
}

/// The views of a list of keys.
pub open spec fn keys_view(keys: Seq<&str>) -> Seq<Seq<char>> {
    keys.map_values(|k: &str| k@)
}

/// Parses `txt` with `serde_json::from_str` into a `serde_json::Value`, then takes the member
/// `list_key` with `Value::get` and `Value::as_array`, and from each element of that array the
/// members `keys` with `Value::get` and `Value::as_str`.
///
/// Claims: the result is what `json_string_fields` names for these arguments, an error exactly
/// where that name is `None`, and each row has one field per key (the body builds one per key).
#[verifier::external_body]
pub(crate) fn read_json_string_fields(txt: &str, list_key: &str, keys: &[&str]) -> (r: Result<
    Option<Vec<Vec<Option<String>>>>,
    serde_json::Error,
>)
    ensures
        match r {
            Ok(None) => json_string_fields(txt@, list_key@, keys_view(keys@)) == Some(
                None::<Seq<Seq<Option<Seq<char>>>>>,
            ),
            Ok(Some(rows)) => json_string_fields(txt@, list_key@, keys_view(keys@)) == Some(
                Some(table_view(rows@)),
            ) && forall|i: int| 0 <= i < rows@.len() ==> #[trigger] rows@[i]@.len() == keys@.len(),
            Err(_) => json_string_fields(txt@, list_key@, keys_view(keys@)).is_none(),
        },
{
    let v: serde_json::Value = serde_json::from_str(txt)?;
    let field = |it: &serde_json::Value, k: &&str| it.get(*k).and_then(|x| x.as_str()).map(|x| x.to_string());
    let row = |it: &serde_json::Value| keys.iter().map(|k| field(it, k)).collect::<Vec<Option<String>>>();
    Ok(v.get(list_key).and_then(|a| a.as_array()).map(|arr| arr.iter().map(row).collect()))
}

} // verus!

//! Reading JSON documents through `serde_json`.
//!
//! Each reply is parsed once. What the library reads of it comes back as the
//! JSON text of indexed values: `value[key].to_string()` on the value that
//! `serde_json` parsed, which is `null` when the key is missing or the value
//! is not an object.
use vstd::prelude::*;

verus! {

/// The members of a JSON object as `(key, value)` texts.
pub type Members = Seq<(Seq<char>, Seq<char>)>;

/// The view of executable member pairs.
pub open spec fn members_view(v: Seq<(String, String)>) -> Members {
    v.map_values(|p: (String, String)| (p.0@, p.1@))
}

/// The view of executable texts.
pub open spec fn texts_view(v: Seq<String>) -> Seq<Seq<char>> {
    v.map_values(|t: String| t@)
}

/// The view of executable rows of texts.
pub open spec fn rows_view(v: Seq<Vec<String>>) -> Seq<Seq<Seq<char>>> {
    v.map_values(|r: Vec<String>| texts_view(r@))
}

/// Whether every row holds `n` texts.
pub open spec fn rows_of_len(rows: Seq<Seq<Seq<char>>>, n: nat) -> bool {
    forall|i: int| 0 <= i < rows.len() ==> (#[trigger] rows[i]).len() == n
}

/// What `serde_json::from_str::<Value>` makes of `text`, then
/// `v[outer][inner].to_string()` for each of the inner keys in turn: `None`
/// when the text is not JSON.
pub uninterp spec fn json_nested_fields(
    text: Seq<char>,
    outer: Seq<char>,
    inners: Seq<Seq<char>>,
) -> Option<Seq<Seq<char>>>;

/// What `serde_json::from_str::<Vec<Value>>` makes of `text`, then
/// `item[field].to_string()` for each item and each field in turn: `None`
/// when the text is not a JSON array.
pub uninterp spec fn json_array_fields(text: Seq<char>, fields: Seq<Seq<char>>) -> Option<
    Seq<Seq<Seq<char>>>,
>;

/// What `serde_json::from_str::<HashMap<String, Value>>` makes of `text`,
/// then `get(key)`, then `serde_json::from_value::<Vec<Value>>` of that
/// member, then `item[field].to_string()` for each item and each field:
/// `None` when the text is not a JSON object, `Some(None)` when it has no
/// such member, `Some(Some(None))` when the member is not an array.
pub uninterp spec fn json_member_list_fields(
    text: Seq<char>,
    key: Seq<char>,
    fields: Seq<Seq<char>>,
) -> Option<Option<Option<Seq<Seq<Seq<char>>>>>>;

/// What `serde_json::from_str::<BTreeMap<String, String>>` makes of a text:
/// `None` unless the text is a JSON object whose values are all strings, else
/// its keys with their (unescaped) string values.
pub uninterp spec fn json_string_object(text: Seq<char>) -> Option<Members>;

/// The view of an optional list of texts.
pub open spec fn option_texts_view(r: Option<Vec<String>>) -> Option<Seq<Seq<char>>> {
    match r {
        Some(v) => Some(texts_view(v@)),
        None => None,
    }
}

/// The view of an optional list of rows.
pub open spec fn option_rows_view(r: Option<Vec<Vec<String>>>) -> Option<Seq<Seq<Seq<char>>>> {
    match r {
        Some(v) => Some(rows_view(v@)),
        None => None,
    }
}

/// The view of the nested outcome of reading a member's list.
pub open spec fn member_list_view(r: Option<Option<Option<Vec<Vec<String>>>>>) -> Option<
    Option<Option<Seq<Seq<Seq<char>>>>>,
> {
    match r {
        None => None,
        Some(None) => Some(None),
        Some(Some(rows)) => Some(Some(option_rows_view(rows))),
    }
}

/// Calls `serde_json::from_str::<Value>` on the text, then indexes the value
/// by `outer` and each inner key and writes each result out with
/// `Value::to_string`.
///
/// Trusted: the texts are those of the one parsed value, one per inner key,
/// and there are none exactly when `serde_json` rejects the text.
#[verifier::external_body]
pub(crate) fn nested_fields(text: &str, outer: &str, inners: &Vec<String>) -> (r: Option<Vec<String>>)
    ensures
        option_texts_view(r) == json_nested_fields(text@, outer@, texts_view(inners@)),
        r matches Some(v) ==> v.len() == inners.len(),
{
    match serde_json::from_str::<serde_json::Value>(text) {
        Ok(v) => Some(inners.iter().map(|k| v[outer][k.as_str()].to_string()).collect()),
        Err(_) => None,
    }
}

/// Calls `serde_json::from_str::<Vec<Value>>` on the text, then indexes each
/// item by each field and writes the result out with `Value::to_string`.
///
/// Trusted: the rows are those of the one parsed array, one per item, each
/// with one text per field, and there are none exactly when `serde_json`
/// rejects the text as an array.
#[verifier::external_body]
pub(crate) fn array_fields(text: &str, fields: &Vec<String>) -> (r: Option<Vec<Vec<String>>>)
    ensures
        option_rows_view(r) == json_array_fields(text@, texts_view(fields@)),
        r matches Some(rows) ==> rows_of_len(rows_view(rows@), fields.len() as nat),
{
    match serde_json::from_str::<Vec<serde_json::Value>>(text) {
        Ok(items) => Some(
            items.iter().map(|v| fields.iter().map(|f| v[f.as_str()].to_string()).collect()).collect(),
        ),
        Err(_) => None,
    }
}

/// Calls `serde_json::from_str::<HashMap<String, Value>>` on the text, takes
/// the member `key` with `HashMap::get`, reads it with
/// `serde_json::from_value::<Vec<Value>>`, then indexes each item by each
/// field and writes the result out with `Value::to_string`.
///
/// Trusted: the outcome is that of those calls on the one parsed object, each
/// row with one text per field.
#[verifier::external_body]
pub(crate) fn member_list_fields(text: &str, key: &str, fields: &Vec<String>) -> (r: Option<
    Option<Option<Vec<Vec<String>>>>,
>)
    ensures
        member_list_view(r) == json_member_list_fields(text@, key@, texts_view(fields@)),
        r matches Some(Some(Some(rows))) ==> rows_of_len(rows_view(rows@), fields.len() as nat),
{
    match serde_json::from_str::<std::collections::HashMap<String, serde_json::Value>>(text) {
        Ok(m) => Some(m.get(key).map(|list| {
            serde_json::from_value::<Vec<serde_json::Value>>(list.clone()).ok().map(|items| {
                items.iter().map(|v| fields.iter().map(|f| v[f.as_str()].to_string()).collect()).collect()
            })
        })),
        Err(_) => None,
    }
}

/// Calls `serde_json::from_str` to read a JSON object of strings.
///
/// Trusted: the pairs that come back are those that `serde_json` found, and
/// there are none exactly when `serde_json` rejects the text as a map from
/// strings to strings.
#[verifier::external_body]
pub(crate) fn parse_string_object(text: &str) -> (r: Option<Vec<(String, String)>>)
    ensures
        r is Some <==> json_string_object(text@) is Some,
        r is Some ==> members_view(r->0@) == json_string_object(text@)->0,
{
    match serde_json::from_str::<std::collections::BTreeMap<String, String>>(text) {
        Ok(m) => Some(m.into_iter().collect()),
        Err(_) => None,
    }
}

/// The value text of the first member with the given key.
pub open spec fn lookup(members: Members, key: Seq<char>) -> Option<Seq<char>>
    decreases members.len(),
{
    if members.len() == 0 {
        None
    } else if members[0].0 == key {
        Some(members[0].1)
    } else {
        lookup(members.drop_first(), key)
    }
}

/// The value text of the first member with the given key, if any.
pub fn find_member(members: &Vec<(String, String)>, key: &str) -> (r: Option<String>)
    ensures
        r is Some <==> lookup(members_view(members@), key@) is Some,
        r is Some ==> r->0@ == lookup(members_view(members@), key@)->0,
{
    let k: String = key.to_owned();
    let ghost all = members_view(members@);
    let mut i: usize = 0;
    assert(all.skip(0) == all);
    while i < members.len()
        invariant
            i <= members.len(),
            k@ == key@,
            all == members_view(members@),
            lookup(all, key@) == lookup(all.skip(i as int), key@),
        decreases members.len() - i,
    {
        let ghost rest = all.skip(i as int);
        assert(rest[0] == (members@[i as int].0@, members@[i as int].1@));
        if members[i].0 == k {
            return Some(members[i].1.clone());
        }
        assert(rest.drop_first() == all.skip(i + 1));
        i = i + 1;
    }
    None
}

} // verus!

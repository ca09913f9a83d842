//! Reading a URL-list configuration document through serde_json.
use vstd::prelude::*;

verus! {

#[verifier::external_type_specification]
#[verifier::external_body]
pub struct ExJsonError(serde_json::Error);

#[verifier::external_type_specification]
#[verifier::external_body]
pub struct ExIoError(std::io::Error);

/// One member of a JSON object: its key and, where its value is an array,
/// each element of that array as a string where it is one.
pub type ListEntry = (String, Option<Vec<Option<String>>>);

/// The plain-value view of a `ListEntry` list.
pub type EntriesView = Seq<(Seq<char>, Option<Seq<Option<Seq<char>>>>)>;

/// What serde_json reads from a document: `None` where it is no JSON at all;
/// `Some(None)` where the top-level value is not an object; otherwise the
/// members of the object, in the order the map walks them.
pub uninterp spec fn json_string_lists(text: Seq<char>) -> Option<Option<EntriesView>>;

pub open spec fn item_view(o: Option<String>) -> Option<Seq<char>> {
    match o {
        Some(s) => Some(s@),
        None => None,
    }
}

pub open spec fn list_view(o: Option<Vec<Option<String>>>) -> Option<Seq<Option<Seq<char>>>> {
    match o {
        Some(v) => Some(v@.map_values(|x: Option<String>| item_view(x))),
        None => None,
    }
}

pub open spec fn entries_view(v: Seq<ListEntry>) -> EntriesView {
    v.map_values(|e: ListEntry| (e.0@, list_view(e.1)))
}

pub open spec fn parsed_view(o: Option<Vec<ListEntry>>) -> Option<EntriesView> {
    match o {
        Some(v) => Some(entries_view(v@)),
        None => None,
    }
}

/// The strings among the elements of an array, in order.
pub open spec fn string_items(items: Seq<Option<Seq<char>>>) -> Seq<Seq<char>>
    decreases items.len(),
{
    if items.len() == 0 {
        seq![]
    } else {
        let rest = string_items(items.drop_last());
        match items.last() {
            Some(s) => rest.push(s),
            None => rest,
        }
    }
}

/// The URLs a member lists: the strings of its array, none if it is no array.
pub open spec fn listed_urls(v: Option<Seq<Option<Seq<char>>>>) -> Seq<Seq<char>> {
    match v {
        Some(items) => string_items(items),
        None => seq![],
    }
}

/// Relies on serde_json::from_str into a serde_json::Value, and on
/// Value::as_object, Value::as_array and Value::as_str to tell the variants
/// apart: whether parsing succeeds and what it yields depend on the text alone.
#[verifier::external_body]
pub(crate) fn parse_string_lists(text: &str) -> (r: Result<Option<Vec<ListEntry>>, serde_json::Error>)
    ensures
        r is Ok <==> json_string_lists(text@) is Some,
        r matches Ok(x) ==> json_string_lists(text@) == Some(parsed_view(x)),
{
    let v: serde_json::Value = serde_json::from_str(text)?;
    Ok(v.as_object().map(|m| {
        m.iter().map(|(k, e)| {
            (k.clone(), e.as_array().map(|a| a.iter().map(|u| u.as_str().map(String::from)).collect()))
        }).collect()
    }))
}

/// Relies on serde_json's `From<serde_json::Error> for std::io::Error`, which
/// keeps the parse error as the I/O error's payload.
#[verifier::external_body]
pub(crate) fn json_error_into_io(e: serde_json::Error) -> (r: std::io::Error) {
    e.into()
}

/// The strings among the elements of a parsed array, in order.
pub fn collect_strings(items: &Vec<Option<String>>) -> (r: Vec<String>)
    ensures
        r@.map_values(|s: String| s@) == string_items(items@.map_values(|x: Option<String>| item_view(x))),
{
    let mut r: Vec<String> = Vec::new();
    let mut i: usize = 0;
    while i < items.len()
        invariant
            i <= items@.len(),
            r@.map_values(|s: String| s@) == string_items(
                items@.take(i as int).map_values(|x: Option<String>| item_view(x)),
            ),
        decreases items@.len() - i,
    {
        let ghost before = items@.take(i as int).map_values(|x: Option<String>| item_view(x));
        let ghost after = items@.take(i + 1).map_values(|x: Option<String>| item_view(x));
        proof {
            assert(after.drop_last() =~= before);
            assert(after.last() == item_view(items@[i as int]));
        }
        match &items[i] {
            Some(s) => {
                r.push(s.clone());
            },
            None => {},
        }
        proof {
            assert(r@.map_values(|s: String| s@) =~= string_items(after));
        }
        i += 1;
    }
    proof {
        assert(items@.take(items@.len() as int) =~= items@);
    }
    r
}

/// The URLs of a parsed member value.
pub fn collect_urls(v: &Option<Vec<Option<String>>>) -> (r: Vec<String>)
    ensures
        r@.map_values(|s: String| s@) == listed_urls(list_view(*v)),
{
    match v {
        Some(items) => collect_strings(items),
        None => {
            let r: Vec<String> = Vec::new();
            proof {
                assert(r@.map_values(|s: String| s@) =~= seq![]);
            }
            r
        },
    }
}

} // verus!

//! A plain JSON tree, holding what the project analyzers read.

use vstd::prelude::*;

use crate::text::{str_chars, strings_view};

verus! {

/// A parsed JSON value. Numbers are kept only as a marker: no analyzer reads them.
#[derive(Debug)]
pub enum Json {
    Null,
    Bool(bool),
    Number,
    Str(String),
    Array(Vec<Json>),
    Object(Vec<(String, Json)>),
}

/// The first member of `entries` whose key is `key`.
pub open spec fn entries_get(entries: Seq<(String, Json)>, key: Seq<char>) -> Option<Json>
    decreases entries.len(),
{
    if entries.len() == 0 {
        None
    } else if entries[0].0@ == key {
        Some(entries[0].1)
    } else {
        entries_get(entries.drop_first(), key)
    }
}

/// `v[key]` when `v` is an object that has that key.
pub open spec fn spec_get(v: Json, key: Seq<char>) -> Option<Json> {
    match v {
        Json::Object(entries) => entries_get(entries@, key),
        _ => None,
    }
}

/// `v[key]` when it is an array.
pub open spec fn spec_get_array(v: Json, key: Seq<char>) -> Option<Seq<Json>> {
    match spec_get(v, key) {
        Some(Json::Array(items)) => Some(items@),
        _ => None,
    }
}

/// `v[key]` when it is an object.
pub open spec fn spec_get_object(v: Json, key: Seq<char>) -> Option<Seq<(String, Json)>> {
    match spec_get(v, key) {
        Some(Json::Object(entries)) => Some(entries@),
        _ => None,
    }
}

/// `v[key]` when it is a string.
pub open spec fn spec_get_str(v: Json, key: Seq<char>) -> Option<Seq<char>> {
    match spec_get(v, key) {
        Some(Json::Str(s)) => Some(s@),
        _ => None,
    }
}

/// `v[key]` when it is a boolean.
pub open spec fn spec_get_bool(v: Json, key: Seq<char>) -> Option<bool> {
    match spec_get(v, key) {
        Some(Json::Bool(b)) => Some(b),
        _ => None,
    }
}

/// The string `name` members of the items, in order, skipping items that have none.
pub open spec fn named_items(items: Seq<Json>) -> Seq<Seq<char>>
    decreases items.len(),
{
    if items.len() == 0 {
        seq![]
    } else {
        let prev = named_items(items.drop_last());
        match spec_get_str(items.last(), "name"@) {
            Some(n) => prev.push(n),
            None => prev,
        }
    }
}

/// Name collection is additive over items, and one item gives its string `name` member,
/// or nothing when it has none.
pub proof fn names_per_item(xs: Seq<Json>, ys: Seq<Json>, x: Json)
    ensures
        named_items(xs + ys) == named_items(xs) + named_items(ys),
        named_items(seq![x]) == match spec_get_str(x, "name"@) {
            Some(n) => seq![n],
            None => Seq::<Seq<char>>::empty(),
        },
    decreases ys.len(),
{
    if ys.len() == 0 {
        assert(xs + ys =~= xs);
        assert(named_items(xs) + named_items(ys) =~= named_items(xs));
    } else {
        names_per_item(xs, ys.drop_last(), x);
        assert((xs + ys).drop_last() =~= xs + ys.drop_last());
        assert((xs + ys).last() == ys.last());
        let n = named_items(xs);
        let m = named_items(ys.drop_last());
        match spec_get_str(ys.last(), "name"@) {
            Some(v) => {
                assert(n + m.push(v) =~= (n + m).push(v));
            },
            None => {},
        }
    }
    assert(seq![x].drop_last() =~= Seq::<Json>::empty());
    assert(named_items(Seq::<Json>::empty()) =~= Seq::<Seq<char>>::empty());
    assert(seq![x].last() == x);
    match spec_get_str(x, "name"@) {
        Some(v) => {
            assert(Seq::<Seq<char>>::empty().push(v) =~= seq![v]);
        },
        None => {},
    }
}

/// The length of an optional array; 0 when absent.
pub open spec fn opt_len(a: Option<Seq<Json>>) -> nat {
    match a {
        Some(items) => items.len(),
        None => 0,
    }
}

/// The string `name` members of the items, in order, skipping items that have none.
pub fn collect_names(items: &Vec<Json>) -> (names: Vec<String>)
    ensures
        strings_view(names@) == named_items(items@),
{
    let mut names: Vec<String> = Vec::new();
    let mut i: usize = 0;
    while i < items.len()
        invariant
            i <= items.len(),
            strings_view(names@) == named_items(items@.take(i as int)),
        decreases items.len() - i,
    {
        assert(items@.take(i + 1).drop_last() =~= items@.take(i as int));
        if let Some(n) = items[i].get_str("name") {
            let ghost before = names@;
            names.push(n.clone());
            assert(strings_view(names@) =~= strings_view(before).push(n@));
        }
        i += 1;
    }
    assert(items@.take(items.len() as int) =~= items@);
    names
}

impl Json {
    /// Looks up `key` in an object; `None` for a missing key or a value that is no object.
    pub fn get(&self, key: &str) -> (r: Option<&Json>)
        ensures
            match r {
                Some(x) => spec_get(*self, key@) == Some(*x),
                None => spec_get(*self, key@) is None,
            },
    {
        match self {
            Json::Object(entries) => {
                let mut i: usize = 0;
                assert(entries@.skip(0) =~= entries@);
                while i < entries.len()
                    invariant
                        i <= entries.len(),
                        spec_get(*self, key@) == entries_get(entries@, key@),
                        entries_get(entries@, key@) == entries_get(entries@.skip(i as int), key@),
                    decreases entries.len() - i,
                {
                    assert(entries@.skip(i as int).drop_first() =~= entries@.skip(i + 1));
                    if str_eq(entries[i].0.as_str(), key) {
                        assert(entries@.skip(i as int)[0] == entries@[i as int]);
                        return Some(&entries[i].1);
                    }
                    i += 1;
                }
                None
            },
            _ => None,
        }
    }
}

impl Json {
    /// `self[key]` when it is an array.
    pub fn get_array(&self, key: &str) -> (r: Option<&Vec<Json>>)
        ensures
            match r {
                Some(a) => spec_get_array(*self, key@) == Some(a@),
                None => spec_get_array(*self, key@) is None,
            },
    {
        match self.get(key) {
            Some(Json::Array(items)) => Some(items),
            _ => None,
        }
    }

    /// `self[key]` when it is an object.
    pub fn get_object(&self, key: &str) -> (r: Option<&Vec<(String, Json)>>)
        ensures
            match r {
                Some(e) => spec_get_object(*self, key@) == Some(e@),
                None => spec_get_object(*self, key@) is None,
            },
    {
        match self.get(key) {
            Some(Json::Object(entries)) => Some(entries),
            _ => None,
        }
    }

    /// `self[key]` when it is a string.
    pub fn get_str(&self, key: &str) -> (r: Option<&String>)
        ensures
            match r {
                Some(s) => spec_get_str(*self, key@) == Some(s@),
                None => spec_get_str(*self, key@) is None,
            },
    {
        match self.get(key) {
            Some(Json::Str(s)) => Some(s),
            _ => None,
        }
    }

    /// `self[key]` when it is a boolean.
    pub fn get_bool(&self, key: &str) -> (r: Option<bool>)
        ensures
            r == spec_get_bool(*self, key@),
    {
        match self.get(key) {
            Some(Json::Bool(b)) => Some(*b),
            _ => None,
        }
    }
}

/// Whether two strings hold the same characters.
pub fn str_eq(a: &str, b: &str) -> (r: bool)
    ensures
        r == (a@ == b@),
{
    let ac = str_chars(a);
    let bc = str_chars(b);
    if ac.len() != bc.len() {
        return false;
    }
    let mut i: usize = 0;
    while i < ac.len()
        invariant
            i <= ac.len() == bc.len(),
            ac@ == a@,
            bc@ == b@,
            forall|k: int| 0 <= k < i ==> ac@[k] == bc@[k],
        decreases ac.len() - i,
    {
        if ac[i] != bc[i] {
            return false;
        }
        i += 1;
    }
    assert(ac@ =~= bc@);
    true
}

/// The tree of the JSON text `bytes` as `serde_json::from_slice` parses it into a
/// `serde_json::Value`; `None` when serde_json reports an error.
pub uninterp spec fn parsed_json(bytes: Seq<u8>) -> Option<Json>;

/// The library's tree for a `serde_json::Value`, one variant for one (a number becomes the
/// bare `Number` marker; an object keeps its members in the order the `Value` holds them).
/// Nothing is stated of the result: `parse_json` below names what a parse gives.
#[verifier::external_body]
fn json_tree(v: &serde_json::Value) -> Json {
    match v {
        serde_json::Value::Null => Json::Null,
        serde_json::Value::Bool(b) => Json::Bool(*b),
        serde_json::Value::Number(_) => Json::Number,
        serde_json::Value::String(s) => Json::Str(s.clone()),
        serde_json::Value::Array(a) => Json::Array(a.iter().map(json_tree).collect()),
        serde_json::Value::Object(o) => Json::Object(
            o.iter().map(|(k, x)| (k.clone(), json_tree(x))).collect(),
        ),
    }
}

/// Parses JSON text with `serde_json::from_slice` into a `serde_json::Value` and turns it
/// into the library's tree. The contract names the outcome, a function of the bytes alone;
/// which texts serde_json accepts is left unsaid.
#[verifier::external_body]
pub(crate) fn parse_json(bytes: &[u8]) -> (r: Option<Json>)
    ensures
        r == parsed_json(bytes@),
{
    serde_json::from_slice::<serde_json::Value>(bytes).ok().map(|v| json_tree(&v))
}

} // verus!

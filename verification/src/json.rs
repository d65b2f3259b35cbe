//! JSON values as plain data.
use crate::text::same;
use vstd::prelude::*;

verus! {

/// A JSON value. Numbers are not told apart: nothing reads them.
#[derive(Debug)]
pub enum Json {
    Null,
    Bool(bool),
    Number,
    Str(String),
    Array(Vec<Json>),
    Object(Vec<(String, Json)>),
}

/// The number of values inside a JSON value.
pub open spec fn json_size(j: Json) -> nat
    decreases j,
{
    match j {
        Json::Array(items) => 1 + items_size(items@),
        Json::Object(fields) => 1 + fields_size(fields@),
        _ => 0,
    }
}

/// The number of values in a list, and inside them.
pub open spec fn items_size(items: Seq<Json>) -> nat
    decreases items,
{
    if items.len() == 0 {
        0
    } else {
        1 + json_size(items[0]) + items_size(items.drop_first())
    }
}

/// The number of values in a list of fields, and inside them.
pub open spec fn fields_size(fields: Seq<(String, Json)>) -> nat
    decreases fields,
{
    if fields.len() == 0 {
        0
    } else {
        1 + json_size(fields[0].1) + fields_size(fields.drop_first())
    }
}

/// The value of the first field named `key`.
pub open spec fn field(fields: Seq<(String, Json)>, key: Seq<char>) -> Option<Json>
    decreases fields.len(),
{
    if fields.len() == 0 {
        None
    } else if fields[0].0@ == key {
        Some(fields[0].1)
    } else {
        field(fields.drop_first(), key)
    }
}

/// The field `key` of an object; no other value has fields.
pub open spec fn json_get(j: Json, key: Seq<char>) -> Option<Json> {
    match j {
        Json::Object(fields) => field(fields@, key),
        _ => None,
    }
}

/// The text of a string; no other value is one.
pub open spec fn json_str(j: Option<Json>) -> Option<Seq<char>> {
    match j {
        Some(Json::Str(s)) => Some(s@),
        _ => None,
    }
}

/// The items of an array; no other value has items.
pub open spec fn json_items(j: Option<Json>) -> Option<Seq<Json>> {
    match j {
        Some(Json::Array(items)) => Some(items@),
        _ => None,
    }
}

/// A field's value is smaller than the fields.
pub proof fn lemma_field_smaller(fields: Seq<(String, Json)>, key: Seq<char>)
    ensures
        field(fields, key) matches Some(j) ==> json_size(j) < fields_size(fields),
    decreases fields.len(),
{
    if fields.len() > 0 && fields[0].0@ != key {
        lemma_field_smaller(fields.drop_first(), key);
    }
}

/// The items of a field are smaller than the object.
pub proof fn lemma_items_smaller(j: Json, key: Seq<char>)
    ensures
        json_items(json_get(j, key)) matches Some(items) ==> items_size(items) < json_size(j),
{
    if let Json::Object(fields) = j {
        lemma_field_smaller(fields@, key);
    }
}

// ---------------------------------------------------------------------------
// Copies

/// Whether two values hold the same.
pub open spec fn same_json(a: Json, b: Json) -> bool
    decreases a,
{
    match (a, b) {
        (Json::Null, Json::Null) => true,
        (Json::Bool(x), Json::Bool(y)) => x == y,
        (Json::Number, Json::Number) => true,
        (Json::Str(x), Json::Str(y)) => x@ == y@,
        (Json::Array(x), Json::Array(y)) => same_items(x@, y@),
        (Json::Object(x), Json::Object(y)) => same_fields(x@, y@),
        _ => false,
    }
}

/// Whether two lists hold the same values.
pub open spec fn same_items(a: Seq<Json>, b: Seq<Json>) -> bool
    decreases a,
{
    if a.len() == 0 {
        b.len() == 0
    } else {
        &&& a.len() == b.len()
        &&& same_items(a.drop_last(), b.drop_last())
        &&& same_json(a[a.len() - 1], b[b.len() - 1])
    }
}

/// Whether two lists of fields hold the same names and values.
pub open spec fn same_fields(a: Seq<(String, Json)>, b: Seq<(String, Json)>) -> bool
    decreases a,
{
    if a.len() == 0 {
        b.len() == 0
    } else {
        &&& a.len() == b.len()
        &&& same_fields(a.drop_last(), b.drop_last())
        &&& a[a.len() - 1].0@ == b[b.len() - 1].0@
        &&& same_json(a[a.len() - 1].1, b[b.len() - 1].1)
    }
}

proof fn lemma_item_smaller(items: Seq<Json>, i: int)
    requires
        0 <= i < items.len(),
    ensures
        json_size(items[i]) < items_size(items),
    decreases items.len(),
{
    if i > 0 {
        lemma_item_smaller(items.drop_first(), i - 1);
    }
}

proof fn lemma_field_value_smaller(fields: Seq<(String, Json)>, i: int)
    requires
        0 <= i < fields.len(),
    ensures
        json_size(fields[i].1) < fields_size(fields),
    decreases fields.len(),
{
    if i > 0 {
        lemma_field_value_smaller(fields.drop_first(), i - 1);
    }
}

fn copied(j: &Json) -> (r: Json)
    ensures
        same_json(*j, r),
    decreases json_size(*j), 1nat,
{
    match j {
        Json::Null => Json::Null,
        Json::Bool(b) => Json::Bool(*b),
        Json::Number => Json::Number,
        Json::Str(s) => Json::Str(s.clone()),
        Json::Array(items) => Json::Array(copied_items(items)),
        Json::Object(fields) => Json::Object(copied_fields(fields)),
    }
}

fn copied_items(items: &Vec<Json>) -> (r: Vec<Json>)
    ensures
        same_items(items@, r@),
    decreases items_size(items@), 0nat,
{
    let mut out: Vec<Json> = Vec::new();
    let mut i: usize = 0;
    while i < items.len()
        invariant
            i <= items@.len(),
            same_items(items@.take(i as int), out@),
        decreases items@.len() - i,
    {
        let ghost before = out@;
        proof {
            lemma_item_smaller(items@, i as int);
        }
        out.push(copied(&items[i]));
        assert(items@.take(i + 1).drop_last() =~= items@.take(i as int));
        assert(out@.drop_last() =~= before);
        i += 1;
    }
    assert(items@.take(items@.len() as int) =~= items@);
    out
}

fn copied_fields(fields: &Vec<(String, Json)>) -> (r: Vec<(String, Json)>)
    ensures
        same_fields(fields@, r@),
    decreases fields_size(fields@), 0nat,
{
    let mut out: Vec<(String, Json)> = Vec::new();
    let mut i: usize = 0;
    while i < fields.len()
        invariant
            i <= fields@.len(),
            same_fields(fields@.take(i as int), out@),
        decreases fields@.len() - i,
    {
        let ghost before = out@;
        proof {
            lemma_field_value_smaller(fields@, i as int);
        }
        out.push((fields[i].0.clone(), copied(&fields[i].1)));
        assert(fields@.take(i + 1).drop_last() =~= fields@.take(i as int));
        assert(out@.drop_last() =~= before);
        i += 1;
    }
    assert(fields@.take(fields@.len() as int) =~= fields@);
    out
}

impl Clone for Json {
    fn clone(&self) -> (r: Self)
        ensures
            same_json(*self, r),
    {
        copied(self)
    }
}

// ---------------------------------------------------------------------------
// Reading

impl Json {
    /// The field `key` of an object.
    pub fn get(&self, key: &str) -> (r: Option<&Json>)
        ensures
            match r {
                Some(j) => json_get(*self, key@) == Some(*j),
                None => json_get(*self, key@) is None,
            },
    {
        match self {
            Json::Object(fields) => {
                let mut i: usize = 0;
                assert(fields@.skip(0) =~= fields@);
                while i < fields.len()
                    invariant
                        i <= fields@.len(),
                        *self == Json::Object(*fields),
                        field(fields@, key@) == field(fields@.skip(i as int), key@),
                    decreases fields@.len() - i,
                {
                    assert(fields@.skip(i as int).drop_first() =~= fields@.skip(i + 1));
                    if same(fields[i].0.as_str(), key) {
                        return Some(&fields[i].1);
                    }
                    i += 1;
                }
                None
            },
            _ => None,
        }
    }

    /// The text of a string.
    pub fn as_str(&self) -> (r: Option<&str>)
        ensures
            r.deep_view() == json_str(Some(*self)),
    {
        match self {
            Json::Str(s) => Some(s.as_str()),
            _ => None,
        }
    }

    /// The items of an array.
    pub fn as_array(&self) -> (r: Option<&Vec<Json>>)
        ensures
            match r {
                Some(items) => json_items(Some(*self)) == Some(items@),
                None => json_items(Some(*self)) is None,
            },
    {
        match self {
            Json::Array(items) => Some(items),
            _ => None,
        }
    }

    /// The text in the field `key`.
    pub fn str_field(&self, key: &str) -> (r: Option<&str>)
        ensures
            r.deep_view() == json_str(json_get(*self, key@)),
    {
        match self.get(key) {
            Some(j) => j.as_str(),
            None => None,
        }
    }

    /// The items in the field `key`.
    pub fn items_field(&self, key: &str) -> (r: Option<&Vec<Json>>)
        ensures
            match r {
                Some(items) => json_items(json_get(*self, key@)) == Some(items@),
                None => json_items(json_get(*self, key@)) is None,
            },
    {
        match self.get(key) {
            Some(j) => j.as_array(),
            None => None,
        }
    }
}

} // verus!

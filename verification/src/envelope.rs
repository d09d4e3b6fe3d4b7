//! The command envelope: a request is a JSON object of a module, an action
//! and parameters; a response is a JSON object that says whether the command
//! went well, and holds its data or its error.
//!
//! Whether a command went well is told by `ok` alone. Reading the data of a
//! response never fails: a field that is missing, or of another shape than
//! the one looked for, gives the empty or zero value of its kind. A response
//! that is out of shape can therefore not be told from one that reports
//! nothing.

use vstd::prelude::*;
use vstd::string::*;
use crate::error::TalonError;
use crate::json::{
    docs, json_as_array, json_as_bool, json_as_str, json_empty_object,
    json_from_str, json_get, json_insert, member, Json, JsonDoc, JsonNumber,
};

verus! {

/// A hit of a full-text search: the document found, and its score as the
/// response gave it.
#[derive(Debug, Clone)]
pub struct SearchHit {
    pub doc_id: String,
    pub score: JsonNumber,
}

/// The request that names only a module.
pub open spec fn bare_command_doc(module: Seq<char>) -> JsonDoc {
    JsonDoc::Object(Map::<Seq<char>, JsonDoc>::empty().insert("module"@, JsonDoc::Str(module)))
}

/// The request for `action` of `module` with `params`.
pub open spec fn command_doc(module: Seq<char>, action: Seq<char>, params: JsonDoc) -> JsonDoc {
    JsonDoc::Object(
        Map::<Seq<char>, JsonDoc>::empty().insert("module"@, JsonDoc::Str(module)).insert(
            "action"@,
            JsonDoc::Str(action),
        ).insert("params"@, params),
    )
}

/// Builds the request that names only a module.
pub fn bare_command(module: &str) -> (cmd: Json)
    ensures
        cmd@ == bare_command_doc(module@),
{
    let mut cmd = json_empty_object();
    json_insert(&mut cmd, "module", json_from_str(module));
    cmd
}

/// Builds the request for `action` of `module` with `params`.
pub fn command(module: &str, action: &str, params: Json) -> (cmd: Json)
    ensures
        cmd@ == command_doc(module@, action@, params@),
{
    let mut cmd = json_empty_object();
    json_insert(&mut cmd, "module", json_from_str(module));
    json_insert(&mut cmd, "action", json_from_str(action));
    json_insert(&mut cmd, "params", params);
    cmd
}

/// The object whose members are the texts of `fields`, each under its name;
/// of two fields of one name the later stays.
pub open spec fn fields_map(fields: Seq<(String, String)>) -> Map<Seq<char>, JsonDoc>
    decreases fields.len(),
{
    if fields.len() == 0 {
        Map::empty()
    } else {
        fields_map(fields.drop_last()).insert(fields.last().0@, JsonDoc::Str(fields.last().1@))
    }
}

/// Builds the object whose members are the texts of `fields`.
pub fn fields_object(fields: &[(String, String)]) -> (obj: Json)
    ensures
        obj@ == JsonDoc::Object(fields_map(fields@)),
{
    let mut obj = json_empty_object();
    let mut i: usize = 0;
    while i < fields.len()
        invariant
            i <= fields.len(),
            obj@ == JsonDoc::Object(fields_map(fields@.take(i as int))),
        decreases fields.len() - i,
    {
        json_insert(&mut obj, fields[i].0.as_str(), json_from_str(fields[i].1.as_str()));
        proof {
            assert(fields@.take(i + 1).drop_last() =~= fields@.take(i as int));
        }
        i += 1;
    }
    assert(fields@.take(fields.len() as int) =~= fields@);
    obj
}

/// Whether a response says that the command went well: its `ok` is `true`
/// itself.
pub open spec fn is_ok(resp: JsonDoc) -> bool {
    member(resp, "ok"@) == Some(JsonDoc::Bool(true))
}

/// The error that a response gives: the text under `error`, and `unknown`
/// where there is none.
pub open spec fn error_of(resp: JsonDoc) -> Seq<char> {
    match member(resp, "error"@) {
        Some(JsonDoc::Str(s)) => s,
        _ => "unknown"@,
    }
}

/// Checks that a response says that the command went well, and fails with
/// the error that it gives where it does not.
pub fn check_ok(resp: &Json) -> (r: Result<(), TalonError>)
    ensures
        is_ok(resp@) ==> r is Ok,
        !is_ok(resp@) ==> (r matches Err(e) && e.message() == error_of(resp@)),
{
    let ok = match json_get(resp, "ok") {
        Some(v) => json_as_bool(&v),
        None => None,
    };
    match ok {
        Some(true) => Ok(()),
        _ => {
            let text = match json_get(resp, "error") {
                Some(v) => json_as_str(&v),
                None => None,
            };
            match text {
                Some(s) => Err(TalonError(s)),
                None => Err(TalonError::new("unknown")),
            }
        },
    }
}

/// The member under `key` of the data of a response.
pub open spec fn data_member(resp: JsonDoc, key: Seq<char>) -> Option<JsonDoc> {
    match member(resp, "data"@) {
        Some(data) => member(data, key),
        None => None,
    }
}

/// Reads the member under `key` of the data of a response.
fn data_field(resp: &Json, key: &str) -> (r: Option<Json>)
    ensures
        match r {
            Some(x) => data_member(resp@, key@) == Some(x@),
            None => data_member(resp@, key@) is None,
        },
{
    match json_get(resp, "data") {
        Some(data) => json_get(&data, key),
        None => None,
    }
}

/// Whether a response says that a document was deleted: its `data.deleted`
/// where that is a boolean, and `false` otherwise.
pub open spec fn deleted_of(resp: JsonDoc) -> bool {
    match data_member(resp, "deleted"@) {
        Some(JsonDoc::Bool(b)) => b,
        _ => false,
    }
}

/// Reads from a response whether a document was deleted.
pub fn deleted_flag(resp: &Json) -> (b: bool)
    ensures
        b == deleted_of(resp@),
{
    match data_field(resp, "deleted") {
        Some(v) => match json_as_bool(&v) {
            Some(b) => b,
            None => false,
        },
        None => false,
    }
}

/// The count that a response gives: its `data.count` where that is a
/// non-negative integer, and zero otherwise.
pub open spec fn count_in(resp: JsonDoc) -> u64 {
    match data_member(resp, "count"@) {
        Some(JsonDoc::Number(JsonNumber::Unsigned(n))) => n,
        _ => 0,
    }
}

/// Reads the count from a response.
pub fn count_value(resp: &Json) -> (n: u64)
    ensures
        n == count_in(resp@),
{
    match data_field(resp, "count") {
        Some(v) => match v.as_u64() {
            Some(n) => n,
            None => 0,
        },
        None => 0,
    }
}

/// The hit that an item of `data.hits` stands for: its `doc_id` and its
/// `score`, where the one is a string and the other a number.
pub open spec fn hit_of(item: JsonDoc) -> Option<(Seq<char>, JsonNumber)> {
    match (member(item, "doc_id"@), member(item, "score"@)) {
        (Some(JsonDoc::Str(id)), Some(JsonDoc::Number(n))) => Some((id, n)),
        _ => None,
    }
}

/// The hits that `items` stand for, in order; an item that stands for none
/// is passed over.
pub open spec fn hits_of(items: Seq<JsonDoc>) -> Seq<(Seq<char>, JsonNumber)>
    decreases items.len(),
{
    if items.len() == 0 {
        Seq::empty()
    } else {
        match hit_of(items.last()) {
            Some(hit) => hits_of(items.drop_last()).push(hit),
            None => hits_of(items.drop_last()),
        }
    }
}

/// The hits that a response gives: those of its `data.hits` where that is an
/// array, and none otherwise.
pub open spec fn hits_in(resp: JsonDoc) -> Seq<(Seq<char>, JsonNumber)> {
    match data_member(resp, "hits"@) {
        Some(JsonDoc::Array(items)) => hits_of(items),
        _ => Seq::empty(),
    }
}

/// What each hit of `hits` holds.
pub open spec fn hit_views(hits: Seq<SearchHit>) -> Seq<(Seq<char>, JsonNumber)> {
    hits.map_values(|h: SearchHit| (h.doc_id@, h.score))
}

/// Reads the hit that an item of `data.hits` stands for.
fn read_hit(item: &Json) -> (r: Option<SearchHit>)
    ensures
        match r {
            Some(h) => hit_of(item@) == Some((h.doc_id@, h.score)),
            None => hit_of(item@) is None,
        },
{
    let id = match json_get(item, "doc_id") {
        Some(v) => json_as_str(&v),
        None => None,
    };
    let score = match json_get(item, "score") {
        Some(v) => v.as_number(),
        None => None,
    };
    match (id, score) {
        (Some(doc_id), Some(score)) => Some(SearchHit { doc_id, score }),
        _ => None,
    }
}

/// Reads the search hits from a response. Where the response has no
/// `data.hits`, or that is no array, there are none.
pub fn search_hits(resp: &Json) -> (hits: Vec<SearchHit>)
    ensures
        hit_views(hits@) == hits_in(resp@),
        hits@.len() == hits_in(resp@).len(),
{
    let mut hits: Vec<SearchHit> = Vec::new();
    let items = match data_field(resp, "hits") {
        Some(v) => json_as_array(&v),
        None => None,
    };
    match items {
        Some(items) => {
            let mut i: usize = 0;
            assert(hit_views(hits@) =~= hits_of(docs(items@).take(0)));
            while i < items.len()
                invariant
                    i <= items.len(),
                    hit_views(hits@) == hits_of(docs(items@).take(i as int)),
                decreases items.len() - i,
            {
                proof {
                    let now = docs(items@).take(i + 1);
                    assert(now.drop_last() =~= docs(items@).take(i as int));
                    assert(now.last() == items@[i as int]@);
                }
                match read_hit(&items[i]) {
                    Some(hit) => {
                        proof {
                            assert(hit_views(hits@.push(hit)) =~= hit_views(hits@).push(
                                (hit.doc_id@, hit.score),
                            ));
                        }
                        hits.push(hit);
                    },
                    None => {},
                }
                i += 1;
            }
            assert(docs(items@).take(items.len() as int) =~= docs(items@));
        },
        None => {
            assert(hit_views(hits@) =~= Seq::<(Seq<char>, JsonNumber)>::empty());
        },
    }
    hits
}

/// The data of a response, and the object without members where it has
/// none.
pub open spec fn data_of(resp: JsonDoc) -> JsonDoc {
    match member(resp, "data"@) {
        Some(data) => data,
        None => JsonDoc::Object(Map::<Seq<char>, JsonDoc>::empty()),
    }
}

/// Reads the data from a response.
pub fn data_or_empty(resp: &Json) -> (data: Json)
    ensures
        data@ == data_of(resp@),
{
    match json_get(resp, "data") {
        Some(data) => data,
        None => json_empty_object(),
    }
}

/// A response without `data.hits` gives no hit, and no error either.
pub proof fn lemma_missing_hits(resp: JsonDoc)
    requires
        data_member(resp, "hits"@) is None,
    ensures
        hits_in(resp) == Seq::<(Seq<char>, JsonNumber)>::empty(),
{
}

} // verus!

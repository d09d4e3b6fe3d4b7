//! The handle to an open database and the engines reached through it. Each
//! operation comes in two parts: one makes the call ready, the other reads
//! the reply once the call has been made.

use vstd::prelude::*;
use vstd::slice::slice_to_vec;
use vstd::string::*;
use vstd::utf8::{decode_utf8, valid_utf8};
use crate::boundary::{c_string, c_text, check_status, BoundaryCall, SpecCall, TalonHandle};
use crate::bytes::{from_twos_complement, le_u32, to_signed};
use crate::codec::{
    count_field, decode_rows_bin, decode_vector_bin, encode_params, encodings, grid_views,
    hit_list, row_set, views,
};
use crate::envelope::{
    bare_command, bare_command_doc, check_ok, command, command_doc, count_in, count_value,
    data_of, data_or_empty, deleted_flag, deleted_of, error_of, fields_map, fields_object,
    hit_views, hits_in, is_ok, search_hits, SearchHit,
};
use crate::error::TalonError;
use crate::fts::hybrid::HybridQuery;
use crate::json::{
    json_empty_object, json_from_str, json_from_u64, json_insert, json_text, parsing, Json,
    JsonDoc, JsonNumber,
};
use crate::value::{SpecValue, Value};

verus! {

/// How a full-text index is set up.
#[derive(Debug, Clone)]
pub struct FtsConfig {
    pub tokenizer: String,
}

impl Default for FtsConfig {
    /// The default names no tokenizer.
    fn default() -> (c: FtsConfig)
        ensures
            c.tokenizer@.len() == 0,
    {
        FtsConfig { tokenizer: String::new() }
    }
}

/// A document for a full-text index: its identifier and its fields, each a
/// name and a text. Of two fields of one name the later counts.
#[derive(Debug, Clone)]
pub struct FtsDoc {
    pub doc_id: String,
    pub fields: Vec<(String, String)>,
}

/// A hit of a hybrid search: the document found, and the bits of its
/// 32-bit score.
#[derive(Debug, Clone)]
pub struct HybridHit {
    pub doc_id: String,
    pub score: u32,
}

/// The engine for models. It has no operation of its own here.
#[derive(Debug)]
pub struct AiEngine;

/// Stands for the store in the signature of [`hybrid_search`].
#[derive(Debug)]
pub struct StoreRef;

/// An open database.
#[derive(Debug)]
pub struct Talon {
    handle: TalonHandle,
    store: StoreRef,
}

/// The key-value engine of a database.
pub struct KvEngine<'a> {
    db: &'a Talon,
}

/// The full-text engine of a database.
pub struct FtsEngine<'a> {
    db: &'a Talon,
}

/// The vector engine of a database, for one index.
pub struct VectorEngine<'a> {
    db: &'a Talon,
    index: String,
}

/// Whether `r` is what `expected` says it should be: the same call, or an
/// error with the same description.
pub open spec fn makes(
    r: Result<BoundaryCall, TalonError>,
    expected: Result<SpecCall, Seq<char>>,
) -> bool {
    match expected {
        Ok(call) => r matches Ok(made) && made@ == call,
        Err(msg) => r matches Err(e) && e.message() == msg,
    }
}

/// The call that opens the database at `path`.
pub open spec fn open_call(path: Seq<char>) -> Result<SpecCall, Seq<char>> {
    match c_text(path) {
        Ok(bytes) => Ok(SpecCall::Open { path: bytes }),
        Err(msg) => Err(msg),
    }
}

/// The call that runs the query `sql`.
pub open spec fn run_sql_call(handle: TalonHandle, sql: Seq<char>) -> Result<SpecCall, Seq<char>> {
    match c_text(sql) {
        Ok(bytes) => Ok(SpecCall::RunSql { handle, sql: bytes }),
        Err(msg) => Err(msg),
    }
}

/// The call that runs the query `sql` with `params`, which cross in their
/// binary encoding: a count field, then each value in order.
pub open spec fn run_sql_param_call(
    handle: TalonHandle,
    sql: Seq<char>,
    params: Seq<SpecValue>,
) -> Result<SpecCall, Seq<char>> {
    match c_text(sql) {
        Ok(bytes) => Ok(
            SpecCall::RunSqlParam {
                handle,
                sql: bytes,
                params: le_u32(count_field(params.len())) + encodings(params),
            },
        ),
        Err(msg) => Err(msg),
    }
}

/// The call that sends the command `cmd`: its compact text crosses as a C
/// string.
pub open spec fn execute_call(handle: TalonHandle, cmd: JsonDoc) -> Result<SpecCall, Seq<char>> {
    match c_text(json_text(cmd)) {
        Ok(bytes) => Ok(SpecCall::Execute { handle, command: bytes }),
        Err(msg) => Err(msg),
    }
}

/// The call that puts `vector` into the index `index` under `id`.
pub open spec fn vector_insert_call(
    handle: TalonHandle,
    index: Seq<char>,
    id: u64,
    vector: Seq<u32>,
) -> Result<SpecCall, Seq<char>> {
    match c_text(index) {
        Ok(bytes) => Ok(SpecCall::VectorInsert { handle, index: bytes, id, vector }),
        Err(msg) => Err(msg),
    }
}

/// The call that searches the index `index` for the `k` vectors nearest to
/// `query` by `metric`. Of two texts that cannot cross, that of the index
/// is reported.
pub open spec fn vector_search_call(
    handle: TalonHandle,
    index: Seq<char>,
    query: Seq<u32>,
    k: usize,
    metric: Seq<char>,
) -> Result<SpecCall, Seq<char>> {
    match (c_text(index), c_text(metric)) {
        (Err(msg), _) => Err(msg),
        (Ok(_), Err(msg)) => Err(msg),
        (Ok(index), Ok(metric)) => Ok(
            SpecCall::VectorSearch { handle, index, query, k, metric },
        ),
    }
}

/// What the reply to a query means: a failure where the status is not
/// zero, no row where there is no buffer, and the rows that the buffer
/// encodes otherwise.
pub open spec fn rows_reply(status: i32, data: Option<Seq<u8>>, failure: Seq<char>) -> Result<
    Seq<Seq<SpecValue>>,
    Seq<char>,
> {
    if status != 0 {
        Err(failure)
    } else {
        match data {
            None => Ok(Seq::empty()),
            Some(d) => row_set(d),
        }
    }
}

/// Reads the reply to a query, with `failure` for a status that is not
/// zero.
fn read_rows(status: i32, data: Option<&[u8]>, failure: &str) -> (r: Result<
    Vec<Vec<Value>>,
    TalonError,
>)
    ensures
        match rows_reply(
            status,
            match data {
                Some(d) => Some(d@),
                None => None,
            },
            failure@,
        ) {
            Ok(rows) => r matches Ok(rv) && grid_views(rv@) == rows && rv@.len() == rows.len(),
            Err(msg) => r matches Err(e) && e.message() == msg,
        },
{
    if status != 0 {
        return Err(TalonError::new(failure));
    }
    match data {
        None => {
            let rows: Vec<Vec<Value>> = Vec::new();
            assert(grid_views(rows@) =~= Seq::<Seq<SpecValue>>::empty());
            Ok(rows)
        },
        Some(d) => decode_rows_bin(d),
    }
}

/// What the reply to a command means: a failure where the status is not
/// zero, where there is no text, or where the text is no JSON; the response
/// otherwise.
pub open spec fn response_of(status: i32, text: Option<Seq<char>>) -> Result<JsonDoc, Seq<char>> {
    if status != 0 {
        Err("execute FFI failed"@)
    } else {
        match text {
            None => Err("execute returned null output"@),
            Some(t) => parsing(t),
        }
    }
}

/// What the reply to a command means where the response has to say that
/// the command went well: as [`response_of`], and the error of a response
/// that does not say so.
pub open spec fn checked_response(status: i32, text: Option<Seq<char>>) -> Result<
    JsonDoc,
    Seq<char>,
> {
    match response_of(status, text) {
        Err(msg) => Err(msg),
        Ok(resp) => if is_ok(resp) {
            Ok(resp)
        } else {
            Err(error_of(resp))
        },
    }
}

/// The text of an optional reply.
pub open spec fn reply_text(text: Option<&str>) -> Option<Seq<char>> {
    match text {
        Some(t) => Some(t@),
        None => None,
    }
}

/// The bytes of an optional reply.
pub open spec fn reply_bytes(data: Option<&[u8]>) -> Option<Seq<u8>> {
    match data {
        Some(d) => Some(d@),
        None => None,
    }
}

impl Talon {
    /// The engine's reference to this database.
    pub closed spec fn handle(&self) -> TalonHandle {
        self.handle
    }

    /// Makes ready the call that opens the database at `path`.
    pub fn open(path: &str) -> (r: Result<BoundaryCall, TalonError>)
        ensures
            makes(r, open_call(path@)),
    {
        match c_string(path) {
            Ok(path) => Ok(BoundaryCall::Open { path }),
            Err(e) => Err(e),
        }
    }

    /// Makes ready the call that opens the database at a path given by its
    /// bytes. Fails where they are not UTF-8.
    pub fn open_path(path: &[u8]) -> (r: Result<BoundaryCall, TalonError>)
        ensures
            valid_utf8(path@) ==> makes(r, open_call(decode_utf8(path@))),
            !valid_utf8(path@) ==> (r matches Err(e) && e.message() == "Invalid UTF-8 path"@),
    {
        match core::str::from_utf8(path) {
            Ok(s) => Talon::open(s),
            Err(_) => Err(TalonError::new("Invalid UTF-8 path")),
        }
    }

    /// Reads the reply to the call that opens the database at `path`: the
    /// null handle means that it could not be opened.
    pub fn opened(path: &str, handle: TalonHandle) -> (r: Result<Talon, TalonError>)
        ensures
            handle.is_null() ==> (r matches Err(e) && e.message() == "Failed to open: "@ + path@),
            !handle.is_null() ==> (r matches Ok(db) && db.handle() == handle),
    {
        if handle.token == 0 {
            let mut msg = String::from_str("Failed to open: ");
            msg.append(path);
            Err(TalonError(msg))
        } else {
            Ok(Talon { handle, store: StoreRef })
        }
    }

    /// Gives up the database: the call that closes it, once; after that the
    /// handle is null and there is nothing left to close.
    pub fn release(&mut self) -> (r: Option<BoundaryCall>)
        ensures
            final(self).handle().is_null(),
            old(self).handle().is_null() ==> r is None,
            !old(self).handle().is_null() ==> (r matches Some(call) && call@ == (SpecCall::Close {
                handle: old(self).handle(),
            })),
    {
        if self.handle.token == 0 {
            None
        } else {
            let handle = self.handle;
            self.handle = TalonHandle { token: 0 };
            Some(BoundaryCall::Close { handle })
        }
    }

    /// Makes ready the call that runs the query `sql`.
    pub fn run_sql(&self, sql: &str) -> (r: Result<BoundaryCall, TalonError>)
        ensures
            makes(r, run_sql_call(self.handle(), sql@)),
    {
        match c_string(sql) {
            Ok(sql) => Ok(BoundaryCall::RunSql { handle: self.handle, sql }),
            Err(e) => Err(e),
        }
    }

    /// Reads the reply to a query: its rows.
    pub fn run_sql_reply(status: i32, data: Option<&[u8]>) -> (r: Result<
        Vec<Vec<Value>>,
        TalonError,
    >)
        ensures
            match rows_reply(status, reply_bytes(data), "run_sql FFI failed"@) {
                Ok(rows) => r matches Ok(rv) && grid_views(rv@) == rows && rv@.len() == rows.len(),
                Err(msg) => r matches Err(e) && e.message() == msg,
            },
    {
        read_rows(status, data, "run_sql FFI failed")
    }

    /// Makes ready the call that runs the query `sql` with `params` bound by
    /// the engine: the parameters cross in their binary encoding.
    pub fn run_sql_param(&self, sql: &str, params: &[Value]) -> (r: Result<
        BoundaryCall,
        TalonError,
    >)
        ensures
            makes(r, run_sql_param_call(self.handle(), sql@, views(params@))),
    {
        match c_string(sql) {
            Ok(sql) => Ok(
                BoundaryCall::RunSqlParam {
                    handle: self.handle,
                    sql,
                    params: encode_params(params),
                },
            ),
            Err(e) => Err(e),
        }
    }

    /// Reads the reply to a query with parameters: its rows.
    pub fn run_sql_param_reply(status: i32, data: Option<&[u8]>) -> (r: Result<
        Vec<Vec<Value>>,
        TalonError,
    >)
        ensures
            match rows_reply(status, reply_bytes(data), "run_sql_param FFI failed"@) {
                Ok(rows) => r matches Ok(rv) && grid_views(rv@) == rows && rv@.len() == rows.len(),
                Err(msg) => r matches Err(e) && e.message() == msg,
            },
    {
        read_rows(status, data, "run_sql_param FFI failed")
    }

    /// The key-value engine, for writing.
    pub fn kv(&self) -> (r: Result<KvEngine<'_>, TalonError>)
        ensures
            r matches Ok(engine) && engine.db() == self,
    {
        Ok(KvEngine { db: self })
    }

    /// The key-value engine, for reading.
    pub fn kv_read(&self) -> (r: Result<KvEngine<'_>, TalonError>)
        ensures
            r matches Ok(engine) && engine.db() == self,
    {
        Ok(KvEngine { db: self })
    }

    /// The full-text engine, for writing.
    pub fn fts(&self) -> (r: Result<FtsEngine<'_>, TalonError>)
        ensures
            r matches Ok(engine) && engine.db() == self,
    {
        Ok(FtsEngine { db: self })
    }

    /// The full-text engine, for reading.
    pub fn fts_read(&self) -> (r: Result<FtsEngine<'_>, TalonError>)
        ensures
            r matches Ok(engine) && engine.db() == self,
    {
        Ok(FtsEngine { db: self })
    }

    /// The vector engine for `index`, for writing.
    pub fn vector(&self, index: &str) -> (r: Result<VectorEngine<'_>, TalonError>)
        ensures
            r matches Ok(engine) && engine.db() == self && engine.index() == index@,
    {
        Ok(VectorEngine { db: self, index: String::from_str(index) })
    }

    /// The vector engine for `index`, for reading.
    pub fn vector_read(&self, index: &str) -> (r: Result<VectorEngine<'_>, TalonError>)
        ensures
            r matches Ok(engine) && engine.db() == self && engine.index() == index@,
    {
        Ok(VectorEngine { db: self, index: String::from_str(index) })
    }

    /// The engine for models, for writing.
    pub fn ai(&self) -> (r: Result<AiEngine, TalonError>)
        ensures
            r is Ok,
    {
        Ok(AiEngine)
    }

    /// The engine for models, for reading.
    pub fn ai_read(&self) -> (r: Result<AiEngine, TalonError>)
        ensures
            r is Ok,
    {
        Ok(AiEngine)
    }

    /// What stands for the store of this database.
    pub fn store_ref(&self) -> (r: &StoreRef)
        ensures
            *r == StoreRef,
    {
        &self.store
    }

    /// Makes ready the call that sends the command `cmd`: its compact text
    /// crosses as a C string.
    pub fn execute(&self, cmd: &Json) -> (r: Result<BoundaryCall, TalonError>)
        ensures
            makes(r, execute_call(self.handle(), cmd@)),
    {
        let text = cmd.to_text();
        match c_string(text.as_str()) {
            Ok(command) => Ok(BoundaryCall::Execute { handle: self.handle, command }),
            Err(e) => Err(e),
        }
    }

    /// Reads the reply to a command: the response that its text holds.
    pub fn execute_reply(status: i32, text: Option<&str>) -> (r: Result<Json, TalonError>)
        ensures
            match response_of(status, reply_text(text)) {
                Ok(resp) => r matches Ok(j) && j@ == resp,
                Err(msg) => r matches Err(e) && e.message() == msg,
            },
    {
        if status != 0 {
            return Err(TalonError::new("execute FFI failed"));
        }
        match text {
            None => Err(TalonError::new("execute returned null output")),
            Some(t) => Json::parse(t),
        }
    }

    /// Reads the reply to a command whose response has to say that it went
    /// well: that response.
    pub fn checked_reply(status: i32, text: Option<&str>) -> (r: Result<Json, TalonError>)
        ensures
            match checked_response(status, reply_text(text)) {
                Ok(resp) => r matches Ok(j) && j@ == resp,
                Err(msg) => r matches Err(e) && e.message() == msg,
            },
    {
        match Talon::execute_reply(status, text) {
            Err(e) => Err(e),
            Ok(resp) => match check_ok(&resp) {
                Ok(_) => Ok(resp),
                Err(e) => Err(e),
            },
        }
    }

    /// Reads the reply to a command that gives nothing back.
    pub fn command_reply(status: i32, text: Option<&str>) -> (r: Result<(), TalonError>)
        ensures
            match checked_response(status, reply_text(text)) {
                Ok(_) => r is Ok,
                Err(msg) => r matches Err(e) && e.message() == msg,
            },
    {
        match Talon::checked_reply(status, text) {
            Ok(_) => Ok(()),
            Err(e) => Err(e),
        }
    }

    /// Makes ready the call that asks for the statistics of the database.
    pub fn database_stats(&self) -> (r: Result<BoundaryCall, TalonError>)
        ensures
            makes(r, execute_call(self.handle(), bare_command_doc("database_stats"@))),
    {
        self.execute(&bare_command("database_stats"))
    }

    /// Reads the reply to the call for statistics: the data of the
    /// response, and the object without members where it has none.
    pub fn database_stats_reply(status: i32, text: Option<&str>) -> (r: Result<Json, TalonError>)
        ensures
            match checked_response(status, reply_text(text)) {
                Ok(resp) => r matches Ok(j) && j@ == data_of(resp),
                Err(msg) => r matches Err(e) && e.message() == msg,
            },
    {
        match Talon::checked_reply(status, text) {
            Ok(resp) => Ok(data_or_empty(&resp)),
            Err(e) => Err(e),
        }
    }

    /// Makes ready the call that asks whether the database is in health.
    pub fn health_check(&self) -> (r: Result<BoundaryCall, TalonError>)
        ensures
            makes(r, execute_call(self.handle(), bare_command_doc("health_check"@))),
    {
        self.execute(&bare_command("health_check"))
    }

    /// The object that reports that the health of the database could not be
    /// had: `status` is `error`.
    pub open spec fn health_failure() -> JsonDoc {
        JsonDoc::Object(
            Map::<Seq<char>, JsonDoc>::empty().insert("status"@, JsonDoc::Str("error"@)),
        )
    }

    /// Reads the reply to the call for the health of the database: the data
    /// of the response, and a report of failure in the place of any error.
    pub fn health_check_reply(status: i32, text: Option<&str>) -> (r: Json)
        ensures
            r@ == (match checked_response(status, reply_text(text)) {
                Ok(resp) => data_of(resp),
                Err(_) => Talon::health_failure(),
            }),
    {
        match Talon::checked_reply(status, text) {
            Ok(resp) => data_or_empty(&resp),
            Err(_) => {
                let mut report = json_empty_object();
                json_insert(&mut report, "status", json_from_str("error"));
                report
            },
        }
    }

    /// Makes ready the call that has the engine write what it holds to
    /// disk.
    pub fn persist(&self) -> (call: BoundaryCall)
        ensures
            call@ == (SpecCall::Persist { handle: self.handle() }),
    {
        BoundaryCall::Persist { handle: self.handle }
    }

    /// Reads the reply to the call that writes to disk.
    pub fn persist_reply(status: i32) -> (r: Result<(), TalonError>)
        ensures
            status == 0 ==> r is Ok,
            status != 0 ==> (r matches Err(e) && e.message() == "persist FFI failed"@),
    {
        check_status(status, "persist FFI failed")
    }
}

impl<'a> KvEngine<'a> {
    /// The database that this engine belongs to.
    pub closed spec fn db(&self) -> &Talon {
        self.db
    }

    /// Makes ready the call that reads the value under `key`.
    pub fn get(&self, key: &[u8]) -> (call: BoundaryCall)
        ensures
            call@ == (SpecCall::KvGet { handle: self.db().handle(), key: key@ }),
    {
        BoundaryCall::KvGet { handle: self.db.handle, key: slice_to_vec(key) }
    }

    /// Reads the reply to a read: the value, or nothing where the key has
    /// none.
    pub fn get_reply(status: i32, data: Option<&[u8]>) -> (r: Result<Option<Vec<u8>>, TalonError>)
        ensures
            status != 0 ==> (r matches Err(e) && e.message() == "kv_get FFI failed"@),
            status == 0 ==> (r matches Ok(found) && match found {
                Some(v) => reply_bytes(data) == Some(v@),
                None => data is None,
            }),
    {
        if status != 0 {
            return Err(TalonError::new("kv_get FFI failed"));
        }
        match data {
            None => Ok(None),
            Some(d) => Ok(Some(slice_to_vec(d))),
        }
    }

    /// Makes ready the call that writes `value` under `key`, to be kept for
    /// `ttl_secs` seconds, or for good where that is nothing or zero. The
    /// number of seconds crosses as a signed number with the same 64 bits.
    pub fn set(&self, key: &[u8], value: &[u8], ttl_secs: Option<u64>) -> (call: BoundaryCall)
        ensures
            call@ == (SpecCall::KvSet {
                handle: self.db().handle(),
                key: key@,
                value: value@,
                ttl_secs: match ttl_secs {
                    Some(t) => from_twos_complement(t),
                    None => 0,
                },
            }),
    {
        let ttl: i64 = match ttl_secs {
            Some(t) => to_signed(t),
            None => 0,
        };
        BoundaryCall::KvSet {
            handle: self.db.handle,
            key: slice_to_vec(key),
            value: slice_to_vec(value),
            ttl_secs: ttl,
        }
    }

    /// Reads the reply to a write.
    pub fn set_reply(status: i32) -> (r: Result<(), TalonError>)
        ensures
            status == 0 ==> r is Ok,
            status != 0 ==> (r matches Err(e) && e.message() == "kv_set FFI failed"@),
    {
        check_status(status, "kv_set FFI failed")
    }

    /// Makes ready the call that deletes `key`.
    pub fn del(&self, key: &[u8]) -> (call: BoundaryCall)
        ensures
            call@ == (SpecCall::KvDel { handle: self.db().handle(), key: key@ }),
    {
        BoundaryCall::KvDel { handle: self.db.handle, key: slice_to_vec(key) }
    }

    /// Reads the reply to a deletion.
    pub fn del_reply(status: i32) -> (r: Result<(), TalonError>)
        ensures
            status == 0 ==> r is Ok,
            status != 0 ==> (r matches Err(e) && e.message() == "kv_del FFI failed"@),
    {
        check_status(status, "kv_del FFI failed")
    }
}

/// The parameters that name an index.
pub open spec fn name_params(name: Seq<char>) -> Map<Seq<char>, JsonDoc> {
    Map::<Seq<char>, JsonDoc>::empty().insert("name"@, JsonDoc::Str(name))
}

/// The parameters that name an index and a document in it.
pub open spec fn doc_params(name: Seq<char>, doc_id: Seq<char>) -> Map<Seq<char>, JsonDoc> {
    name_params(name).insert("doc_id"@, JsonDoc::Str(doc_id))
}

/// Builds the parameters that name an index.
fn name_object(name: &str) -> (obj: Json)
    ensures
        obj@ == JsonDoc::Object(name_params(name@)),
{
    let mut obj = json_empty_object();
    json_insert(&mut obj, "name", json_from_str(name));
    obj
}

/// Builds the parameters that name an index and a document in it.
fn doc_object(name: &str, doc_id: &str) -> (obj: Json)
    ensures
        obj@ == JsonDoc::Object(doc_params(name@, doc_id@)),
{
    let mut obj = name_object(name);
    json_insert(&mut obj, "doc_id", json_from_str(doc_id));
    obj
}

/// The command that creates the full-text index `name`.
pub open spec fn create_index_command(name: Seq<char>) -> JsonDoc {
    command_doc("fts"@, "create_index"@, JsonDoc::Object(name_params(name)))
}

/// The command that puts a document with `fields` into the index `name`
/// under `doc_id`.
pub open spec fn index_command(
    name: Seq<char>,
    doc_id: Seq<char>,
    fields: Seq<(String, String)>,
) -> JsonDoc {
    command_doc(
        "fts"@,
        "index"@,
        JsonDoc::Object(
            doc_params(name, doc_id).insert("fields"@, JsonDoc::Object(fields_map(fields))),
        ),
    )
}

/// The command that takes the document `doc_id` out of the index `name`.
pub open spec fn delete_doc_command(name: Seq<char>, doc_id: Seq<char>) -> JsonDoc {
    command_doc("fts"@, "delete"@, JsonDoc::Object(doc_params(name, doc_id)))
}

/// The command that searches the index `name` for `query`, for `limit` hits
/// at most.
pub open spec fn search_command(name: Seq<char>, query: Seq<char>, limit: usize) -> JsonDoc {
    command_doc(
        "fts"@,
        "search"@,
        JsonDoc::Object(
            name_params(name).insert("query"@, JsonDoc::Str(query)).insert(
                "limit"@,
                JsonDoc::Number(JsonNumber::Unsigned(limit as u64)),
            ),
        ),
    )
}

impl<'a> FtsEngine<'a> {
    /// The database that this engine belongs to.
    pub closed spec fn db(&self) -> &Talon {
        self.db
    }

    /// Makes ready the call that creates the index `name`, if it is not
    /// there yet.
    pub fn create_index(&self, name: &str, _config: &FtsConfig) -> (r: Result<
        BoundaryCall,
        TalonError,
    >)
        ensures
            makes(r, execute_call(self.db().handle(), create_index_command(name@))),
    {
        self.db.execute(&command("fts", "create_index", name_object(name)))
    }

    /// Makes ready the call that puts `doc` into the index `name`.
    pub fn index_doc(&self, name: &str, doc: &FtsDoc) -> (r: Result<BoundaryCall, TalonError>)
        ensures
            makes(
                r,
                execute_call(self.db().handle(), index_command(name@, doc.doc_id@, doc.fields@)),
            ),
    {
        let mut params = doc_object(name, doc.doc_id.as_str());
        json_insert(&mut params, "fields", fields_object(doc.fields.as_slice()));
        self.db.execute(&command("fts", "index", params))
    }

    /// Makes ready the call that takes the document `doc_id` out of the
    /// index `name`.
    pub fn delete_doc(&self, name: &str, doc_id: &str) -> (r: Result<BoundaryCall, TalonError>)
        ensures
            makes(r, execute_call(self.db().handle(), delete_doc_command(name@, doc_id@))),
    {
        self.db.execute(&command("fts", "delete", doc_object(name, doc_id)))
    }

    /// Reads the reply to the deletion of a document: whether it was there.
    pub fn delete_doc_reply(status: i32, text: Option<&str>) -> (r: Result<bool, TalonError>)
        ensures
            match checked_response(status, reply_text(text)) {
                Ok(resp) => r == Ok::<bool, TalonError>(deleted_of(resp)),
                Err(msg) => r matches Err(e) && e.message() == msg,
            },
    {
        match Talon::checked_reply(status, text) {
            Ok(resp) => Ok(deleted_flag(&resp)),
            Err(e) => Err(e),
        }
    }

    /// Makes ready the call that searches the index `name` for `query`, for
    /// `limit` hits at most.
    pub fn search(&self, name: &str, query: &str, limit: usize) -> (r: Result<
        BoundaryCall,
        TalonError,
    >)
        ensures
            makes(r, execute_call(self.db().handle(), search_command(name@, query@, limit))),
    {
        let mut params = name_object(name);
        json_insert(&mut params, "query", json_from_str(query));
        json_insert(&mut params, "limit", json_from_u64(limit as u64));
        self.db.execute(&command("fts", "search", params))
    }

    /// Reads the reply to a search: its hits, in order. A response without
    /// hits gives none.
    pub fn search_reply(status: i32, text: Option<&str>) -> (r: Result<Vec<SearchHit>, TalonError>)
        ensures
            match checked_response(status, reply_text(text)) {
                Ok(resp) => r matches Ok(hits) && hit_views(hits@) == hits_in(resp) && hits@.len()
                    == hits_in(resp).len(),
                Err(msg) => r matches Err(e) && e.message() == msg,
            },
    {
        match Talon::checked_reply(status, text) {
            Ok(resp) => Ok(search_hits(&resp)),
            Err(e) => Err(e),
        }
    }
}

/// The parameters that name a vector index.
pub open spec fn index_params(index: Seq<char>) -> Map<Seq<char>, JsonDoc> {
    Map::<Seq<char>, JsonDoc>::empty().insert("index"@, JsonDoc::Str(index))
}

/// What the reply to a vector search means: a failure where the status is
/// not zero, no hit where there is no buffer or an empty one, and the hits
/// that the buffer encodes otherwise.
pub open spec fn hits_reply(status: i32, data: Option<Seq<u8>>) -> Result<
    Seq<(u64, u32)>,
    Seq<char>,
> {
    if status != 0 {
        Err("vector_search FFI failed"@)
    } else {
        match data {
            None => Ok(Seq::empty()),
            Some(d) => if d.len() == 0 {
                Ok(Seq::empty())
            } else {
                hit_list(d)
            },
        }
    }
}

/// The command that takes the vector under `id` out of the index `index`.
pub open spec fn delete_vector_command(index: Seq<char>, id: u64) -> JsonDoc {
    command_doc(
        "vector"@,
        "delete"@,
        JsonDoc::Object(
            index_params(index).insert("id"@, JsonDoc::Number(JsonNumber::Unsigned(id))),
        ),
    )
}

/// The command that asks how many vectors the index `index` holds.
pub open spec fn count_command(index: Seq<char>) -> JsonDoc {
    command_doc("vector"@, "count"@, JsonDoc::Object(index_params(index)))
}

impl<'a> VectorEngine<'a> {
    /// The database that this engine belongs to.
    pub closed spec fn db(&self) -> &Talon {
        self.db
    }

    /// The name of the index that this engine works on.
    pub closed spec fn index(&self) -> Seq<char> {
        self.index@
    }

    /// Makes ready the call that puts the vector `embedding`, given by the
    /// bits of its components, into the index under `id`.
    pub fn insert(&self, id: u64, embedding: &[u32]) -> (r: Result<BoundaryCall, TalonError>)
        ensures
            makes(r, vector_insert_call(self.db().handle(), self.index(), id, embedding@)),
    {
        match c_string(self.index.as_str()) {
            Ok(index) => Ok(
                BoundaryCall::VectorInsert {
                    handle: self.db.handle,
                    index,
                    id,
                    vector: slice_to_vec(embedding),
                },
            ),
            Err(e) => Err(e),
        }
    }

    /// Reads the reply to an insertion.
    pub fn insert_reply(status: i32) -> (r: Result<(), TalonError>)
        ensures
            status == 0 ==> r is Ok,
            status != 0 ==> (r matches Err(e) && e.message() == "vector_insert FFI failed"@),
    {
        check_status(status, "vector_insert FFI failed")
    }

    /// Makes ready the call that takes the vector under `id` out of the
    /// index.
    pub fn delete(&self, id: u64) -> (r: Result<BoundaryCall, TalonError>)
        ensures
            makes(r, execute_call(self.db().handle(), delete_vector_command(self.index(), id))),
    {
        let mut params = json_empty_object();
        json_insert(&mut params, "index", json_from_str(self.index.as_str()));
        json_insert(&mut params, "id", json_from_u64(id));
        self.db.execute(&command("vector", "delete", params))
    }

    /// Makes ready the call that searches the index for the `k` vectors
    /// nearest to `query` by `metric`.
    pub fn search(&self, query: &[u32], k: usize, metric: &str) -> (r: Result<
        BoundaryCall,
        TalonError,
    >)
        ensures
            makes(
                r,
                vector_search_call(self.db().handle(), self.index(), query@, k, metric@),
            ),
    {
        match c_string(self.index.as_str()) {
            Err(e) => Err(e),
            Ok(index) => match c_string(metric) {
                Err(e) => Err(e),
                Ok(metric) => Ok(
                    BoundaryCall::VectorSearch {
                        handle: self.db.handle,
                        index,
                        query: slice_to_vec(query),
                        k,
                        metric,
                    },
                ),
            },
        }
    }

    /// Reads the reply to a vector search: the hits, each an identifier and
    /// the bits of a distance, in the order in which the engine gave them.
    pub fn search_reply(status: i32, data: Option<&[u8]>) -> (r: Result<
        Vec<(u64, u32)>,
        TalonError,
    >)
        ensures
            match hits_reply(status, reply_bytes(data)) {
                Ok(hits) => r matches Ok(rv) && rv@ == hits,
                Err(msg) => r matches Err(e) && e.message() == msg,
            },
    {
        if status != 0 {
            return Err(TalonError::new("vector_search FFI failed"));
        }
        match data {
            None => Ok(Vec::new()),
            Some(d) => if d.len() == 0 {
                Ok(Vec::new())
            } else {
                decode_vector_bin(d)
            },
        }
    }

    /// Makes ready the call that asks how many vectors the index holds.
    pub fn count(&self) -> (r: Result<BoundaryCall, TalonError>)
        ensures
            makes(r, execute_call(self.db().handle(), count_command(self.index()))),
    {
        let mut params = json_empty_object();
        json_insert(&mut params, "index", json_from_str(self.index.as_str()));
        self.db.execute(&command("vector", "count", params))
    }

    /// Reads the reply to a count: the number, and zero where the response
    /// gives none.
    pub fn count_reply(status: i32, text: Option<&str>) -> (r: Result<u64, TalonError>)
        ensures
            match checked_response(status, reply_text(text)) {
                Ok(resp) => r == Ok::<u64, TalonError>(count_in(resp)),
                Err(msg) => r matches Err(e) && e.message() == msg,
            },
    {
        match Talon::checked_reply(status, text) {
            Ok(resp) => Ok(count_value(&resp)),
            Err(e) => Err(e),
        }
    }
}

/// Searches by full text and by vector at once. The store gives no way to
/// the engine, so there is no hit to report: callers merge the two
/// searches themselves.
pub fn hybrid_search(_store: &StoreRef, _q: &HybridQuery<'_>) -> (r: Result<
    Vec<HybridHit>,
    TalonError,
>)
    ensures
        r matches Ok(hits) && hits@.len() == 0,
{
    Ok(Vec::new())
}

} // verus!

//! The calls that cross the boundary to the engine, as values: what to ask
//! of the engine, made ready here, and what its answer means, read here. The
//! call itself is made by whoever holds the engine.

use vstd::prelude::*;
use vstd::slice::slice_to_vec;
use vstd::string::*;
use vstd::utf8::encode_utf8;
use crate::error::TalonError;
use crate::text::{decimal, push_decimal};

verus! {

/// The engine's reference to an open database. Zero is the null handle,
/// which stands for no database.
#[derive(Debug, Clone, Copy, PartialEq, Eq, Structural)]
pub struct TalonHandle {
    pub token: u64,
}

impl TalonHandle {
    /// Whether this is the null handle.
    pub open spec fn is_null(&self) -> bool {
        self.token == 0
    }

    /// The null handle.
    pub fn null() -> (h: TalonHandle)
        ensures
            h.is_null(),
    {
        TalonHandle { token: 0 }
    }
}

/// One call of the engine's interface, with its arguments made ready. Text
/// that crosses as a C string is held as its bytes, none of which is zero.
#[derive(Debug)]
pub enum BoundaryCall {
    Open { path: Vec<u8> },
    Close { handle: TalonHandle },
    RunSql { handle: TalonHandle, sql: Vec<u8> },
    RunSqlParam { handle: TalonHandle, sql: Vec<u8>, params: Vec<u8> },
    KvGet { handle: TalonHandle, key: Vec<u8> },
    KvSet { handle: TalonHandle, key: Vec<u8>, value: Vec<u8>, ttl_secs: i64 },
    KvDel { handle: TalonHandle, key: Vec<u8> },
    VectorInsert { handle: TalonHandle, index: Vec<u8>, id: u64, vector: Vec<u32> },
    VectorSearch {
        handle: TalonHandle,
        index: Vec<u8>,
        query: Vec<u32>,
        k: usize,
        metric: Vec<u8>,
    },
    Execute { handle: TalonHandle, command: Vec<u8> },
    Persist { handle: TalonHandle },
}

/// What a [`BoundaryCall`] holds.
pub enum SpecCall {
    Open { path: Seq<u8> },
    Close { handle: TalonHandle },
    RunSql { handle: TalonHandle, sql: Seq<u8> },
    RunSqlParam { handle: TalonHandle, sql: Seq<u8>, params: Seq<u8> },
    KvGet { handle: TalonHandle, key: Seq<u8> },
    KvSet { handle: TalonHandle, key: Seq<u8>, value: Seq<u8>, ttl_secs: i64 },
    KvDel { handle: TalonHandle, key: Seq<u8> },
    VectorInsert { handle: TalonHandle, index: Seq<u8>, id: u64, vector: Seq<u32> },
    VectorSearch {
        handle: TalonHandle,
        index: Seq<u8>,
        query: Seq<u32>,
        k: usize,
        metric: Seq<u8>,
    },
    Execute { handle: TalonHandle, command: Seq<u8> },
    Persist { handle: TalonHandle },
}

impl View for BoundaryCall {
    type V = SpecCall;

    open spec fn view(&self) -> SpecCall {
        match *self {
            BoundaryCall::Open { path } => SpecCall::Open { path: path@ },
            BoundaryCall::Close { handle } => SpecCall::Close { handle },
            BoundaryCall::RunSql { handle, sql } => SpecCall::RunSql { handle, sql: sql@ },
            BoundaryCall::RunSqlParam { handle, sql, params } => SpecCall::RunSqlParam {
                handle,
                sql: sql@,
                params: params@,
            },
            BoundaryCall::KvGet { handle, key } => SpecCall::KvGet { handle, key: key@ },
            BoundaryCall::KvSet { handle, key, value, ttl_secs } => SpecCall::KvSet {
                handle,
                key: key@,
                value: value@,
                ttl_secs,
            },
            BoundaryCall::KvDel { handle, key } => SpecCall::KvDel { handle, key: key@ },
            BoundaryCall::VectorInsert { handle, index, id, vector } => SpecCall::VectorInsert {
                handle,
                index: index@,
                id,
                vector: vector@,
            },
            BoundaryCall::VectorSearch { handle, index, query, k, metric } => {
                SpecCall::VectorSearch {
                    handle,
                    index: index@,
                    query: query@,
                    k,
                    metric: metric@,
                }
            },
            BoundaryCall::Execute { handle, command } => SpecCall::Execute {
                handle,
                command: command@,
            },
            BoundaryCall::Persist { handle } => SpecCall::Persist { handle },
        }
    }
}

/// Whether no byte of `b` is zero.
pub open spec fn nul_free(b: Seq<u8>) -> bool {
    forall|i: int| 0 <= i < b.len() ==> #[trigger] b[i] != 0
}

/// The place of the first zero byte of `b`, and the length of `b` where it
/// has none.
pub open spec fn first_nul(b: Seq<u8>) -> int
    decreases b.len(),
{
    if b.len() == 0 || b[0] == 0 {
        0
    } else {
        1 + first_nul(b.drop_first())
    }
}

/// The bytes by which `s` crosses the boundary as a C string, or the
/// description of why it cannot: a zero byte would end it early.
pub open spec fn c_text(s: Seq<char>) -> Result<Seq<u8>, Seq<char>> {
    if nul_free(encode_utf8(s)) {
        Ok(encode_utf8(s))
    } else {
        Err(
            "NUL byte in string: nul byte found in provided data at position: "@ + decimal(
                first_nul(encode_utf8(s)) as nat,
            ),
        )
    }
}

/// The first zero byte is where a zero byte stands with none before it.
proof fn lemma_first_nul(b: Seq<u8>, p: int)
    requires
        0 <= p < b.len(),
        b[p] == 0,
        forall|j: int| 0 <= j < p ==> #[trigger] b[j] != 0,
    ensures
        first_nul(b) == p,
    decreases p,
{
    if p > 0 {
        let rest = b.drop_first();
        assert(b[0] != 0);
        assert forall|j: int| 0 <= j < p - 1 implies #[trigger] rest[j] != 0 by {
            assert(rest[j] == b[j + 1]);
        }
        lemma_first_nul(rest, p - 1);
    }
}

/// Makes `s` ready to cross the boundary as a C string. Fails, before any
/// call is made, where `s` holds a zero byte.
pub fn c_string(s: &str) -> (r: Result<Vec<u8>, TalonError>)
    ensures
        match c_text(s@) {
            Ok(bytes) => r matches Ok(v) && v@ == bytes,
            Err(msg) => r matches Err(e) && e.message() == msg,
        },
{
    let bytes = s.as_bytes();
    let mut i: usize = 0;
    while i < bytes.len()
        invariant
            i <= bytes.len(),
            bytes@ == encode_utf8(s@),
            forall|j: int| 0 <= j < i ==> #[trigger] bytes@[j] != 0,
        decreases bytes.len() - i,
    {
        if bytes[i] == 0 {
            proof {
                lemma_first_nul(bytes@, i as int);
            }
            let mut msg = String::from_str(
                "NUL byte in string: nul byte found in provided data at position: ",
            );
            push_decimal(&mut msg, i as u64);
            return Err(TalonError(msg));
        }
        i += 1;
    }
    Ok(slice_to_vec(bytes))
}

/// What a status code means: zero is success, and anything else the
/// failure that `failure` describes.
pub open spec fn status_meaning(status: i32, failure: Seq<char>) -> Result<(), Seq<char>> {
    if status == 0 {
        Ok(())
    } else {
        Err(failure)
    }
}

/// Reads a status code: zero is success, anything else fails with
/// `failure`.
pub fn check_status(status: i32, failure: &str) -> (r: Result<(), TalonError>)
    ensures
        match status_meaning(status, failure@) {
            Ok(_) => r is Ok,
            Err(msg) => r matches Err(e) && e.message() == msg,
        },
{
    if status != 0 {
        Err(TalonError::new(failure))
    } else {
        Ok(())
    }
}

} // verus!

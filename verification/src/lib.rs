//! Typed-value exchange with the Talon storage engine: the binary value
//! encoding, the row and hit-list framing built on it, the JSON command
//! envelope, and the textual parameter binder.
//!
//! The engine is reached only through its call interface, which this library
//! never invokes itself: every operation is split into the call to make and
//! the reading of what came back.

pub mod bytes;
pub mod text;
pub mod error;
pub mod json;
pub mod value;
pub mod codec;
pub mod roundtrip;
pub mod binder;
pub mod quoting;
pub mod envelope;
pub mod boundary;
pub mod fts;
pub mod handle;

pub use crate::binder::{bind_params, sql_literal};
pub use crate::boundary::{BoundaryCall, TalonHandle};
pub use crate::codec::{
    decode_rows_bin, decode_value, decode_vector_bin, encode_params, encode_rows_bin, encode_value,
    encode_vector_bin,
};
pub use crate::envelope::SearchHit;
pub use crate::error::TalonError;
pub use crate::handle::{
    hybrid_search, AiEngine, FtsConfig, FtsDoc, FtsEngine, HybridHit, KvEngine, StoreRef, Talon,
    VectorEngine,
};
pub use crate::json::{Json, JsonNumber};
pub use crate::value::Value;

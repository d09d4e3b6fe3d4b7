//! The binary encoding of values: one tag byte, then a payload whose shape
//! the tag decides.

use vstd::prelude::*;
use vstd::slice::{slice_subrange, slice_to_vec};
use vstd::string::*;
use vstd::utf8::*;
use crate::bytes::{
    get_i64, get_u32, get_u64, i64_at, le_i64, le_u32, le_u64, put_i64, put_u32, put_u64, u32_at,
    u64_at,
};
use crate::error::TalonError;
use crate::json::{
    json_error_message, json_error_text, json_parse, json_parsed, json_text, json_to_text,
};
use crate::text::{decimal, push_decimal};
use crate::value::{SpecValue, Value};

verus! {

/// The number that a 32-bit count field shows for `n` items: `n` itself as
/// long as it fits, and its low 32 bits beyond that.
pub open spec fn count_field(n: nat) -> u32 {
    (n % 0x1_0000_0000) as u32
}

/// The bytes of a vector's components, four for each, in order.
pub open spec fn vector_bytes(v: Seq<u32>) -> Seq<u8>
    decreases v.len(),
{
    if v.len() == 0 {
        Seq::empty()
    } else {
        vector_bytes(v.drop_last()) + le_u32(v.last())
    }
}

/// A length field for `payload`, then `payload` itself.
pub open spec fn sized(payload: Seq<u8>) -> Seq<u8> {
    le_u32(count_field(payload.len())) + payload
}

/// The encoding of one value.
pub open spec fn encoding(v: SpecValue) -> Seq<u8> {
    match v {
        SpecValue::Null => seq![0u8],
        SpecValue::Integer(i) => seq![1u8] + le_i64(i),
        SpecValue::Float(bits) => seq![2u8] + le_u64(bits),
        SpecValue::Text(s) => seq![3u8] + sized(encode_utf8(s)),
        SpecValue::Blob(b) => seq![4u8] + sized(b),
        SpecValue::Boolean(b) => seq![5u8, if b { 1u8 } else { 0u8 }],
        SpecValue::Jsonb(doc) => seq![6u8] + sized(encode_utf8(json_text(doc))),
        SpecValue::Vector(v) => seq![7u8] + le_u32(count_field(v.len())) + vector_bytes(v),
        SpecValue::Timestamp(t) => seq![8u8] + le_i64(t),
        SpecValue::GeoPoint(lat, lon) => seq![9u8] + le_u64(lat) + le_u64(lon),
    }
}

/// The encodings of the values of `vs`, one after another.
pub open spec fn encodings(vs: Seq<SpecValue>) -> Seq<u8>
    decreases vs.len(),
{
    if vs.len() == 0 {
        Seq::empty()
    } else {
        encodings(vs.drop_last()) + encoding(vs.last())
    }
}

/// What each value of `vs` holds.
pub open spec fn views(vs: Seq<Value>) -> Seq<SpecValue> {
    vs.map_values(|v: Value| v@)
}

/// The number that a count field shows for `n` items.
fn count_of(n: usize) -> (r: u32)
    ensures
        r == count_field(n as nat),
{
    ((n as u64) % 0x1_0000_0000) as u32
}

/// Appends `bytes` to `buf`.
fn put_bytes(buf: &mut Vec<u8>, bytes: &[u8])
    ensures
        final(buf)@ == old(buf)@ + bytes@,
{
    buf.extend_from_slice(bytes);
    assert(buf@ =~= old(buf)@ + bytes@);
}

/// Appends a length field for `payload`, then `payload`, to `buf`.
fn put_sized(buf: &mut Vec<u8>, payload: &[u8])
    ensures
        final(buf)@ == old(buf)@ + sized(payload@),
{
    put_u32(buf, count_of(payload.len()));
    put_bytes(buf, payload);
    assert(buf@ =~= old(buf)@ + sized(payload@));
}

/// Appends the encoding of `val` to `buf`.
pub fn encode_value(buf: &mut Vec<u8>, val: &Value)
    ensures
        final(buf)@ == old(buf)@ + encoding(val@),
{
    match val {
        Value::Null => {
            buf.push(0);
        },
        Value::Integer(i) => {
            buf.push(1);
            put_i64(buf, *i);
        },
        Value::Float(bits) => {
            buf.push(2);
            put_u64(buf, *bits);
        },
        Value::Text(s) => {
            buf.push(3);
            put_sized(buf, s.as_str().as_bytes());
        },
        Value::Blob(b) => {
            buf.push(4);
            put_sized(buf, b.as_slice());
        },
        Value::Boolean(b) => {
            buf.push(5);
            buf.push(if *b { 1 } else { 0 });
        },
        Value::Jsonb(j) => {
            buf.push(6);
            let s = json_to_text(j);
            put_sized(buf, s.as_str().as_bytes());
        },
        Value::Vector(v) => {
            buf.push(7);
            put_u32(buf, count_of(v.len()));
            let ghost head = buf@;
            let mut i: usize = 0;
            while i < v.len()
                invariant
                    i <= v.len(),
                    buf@ == head + vector_bytes(v@.take(i as int)),
                decreases v.len() - i,
            {
                put_u32(buf, v[i]);
                proof {
                    assert(v@.take(i + 1).drop_last() =~= v@.take(i as int));
                    assert(buf@ =~= head + vector_bytes(v@.take(i + 1)));
                }
                i += 1;
            }
            assert(v@.take(v.len() as int) =~= v@);
        },
        Value::Timestamp(t) => {
            buf.push(8);
            put_i64(buf, *t);
        },
        Value::GeoPoint(lat, lon) => {
            buf.push(9);
            put_u64(buf, *lat);
            put_u64(buf, *lon);
        },
    }
    assert(buf@ =~= old(buf)@ + encoding(val@));
}

/// Encodes a parameter list: a count field, then each value in order.
pub fn encode_params(params: &[Value]) -> (buf: Vec<u8>)
    ensures
        buf@ == le_u32(count_field(params@.len())) + encodings(views(params@)),
{
    let mut buf: Vec<u8> = Vec::new();
    put_u32(&mut buf, count_of(params.len()));
    let ghost head = buf@;
    let mut i: usize = 0;
    while i < params.len()
        invariant
            i <= params.len(),
            buf@ == head + encodings(views(params@.take(i as int))),
        decreases params.len() - i,
    {
        encode_value(&mut buf, &params[i]);
        proof {
            let now = views(params@.take(i + 1));
            assert(now.drop_last() =~= views(params@.take(i as int)));
            assert(now.last() == params@[i as int]@);
            assert(buf@ =~= head + encodings(now));
        }
        i += 1;
    }
    assert(params@.take(params.len() as int) =~= params@);
    buf
}

/// The payload that a length field at `at` announces, where `data` holds
/// all of it.
pub open spec fn payload_at(data: Seq<u8>, at: int) -> Seq<u8> {
    data.subrange(at + 4, at + 4 + u32_at(data, at))
}

/// The `dim` vector components that stand in `data` from `at` on.
pub open spec fn vector_at(data: Seq<u8>, at: int, dim: nat) -> Seq<u32> {
    Seq::new(dim, |i: int| u32_at(data, at + 4 * i))
}

/// What decoding makes of the value that starts at `pos` in `data`: the
/// value and the number of bytes it takes up, or the description of why
/// there is no value there.
pub open spec fn decoding(data: Seq<u8>, pos: int) -> Result<(SpecValue, int), Seq<char>> {
    let off = pos + 1;
    let room = data.len() - off;
    if pos < 0 || pos >= data.len() {
        Err("unexpected end of binary data"@)
    } else if data[pos] == 0 {
        Ok((SpecValue::Null, 1))
    } else if data[pos] == 1 {
        if room < 8 {
            Err("truncated i64"@)
        } else {
            Ok((SpecValue::Integer(i64_at(data, off)), 9))
        }
    } else if data[pos] == 2 {
        if room < 8 {
            Err("truncated f64"@)
        } else {
            Ok((SpecValue::Float(u64_at(data, off)), 9))
        }
    } else if data[pos] == 3 {
        if room < 4 {
            Err("truncated text len"@)
        } else if room < 4 + u32_at(data, off) {
            Err("truncated text data"@)
        } else if !valid_utf8(payload_at(data, off)) {
            Err("invalid utf8 in text"@)
        } else {
            Ok((SpecValue::Text(decode_utf8(payload_at(data, off))), 5 + u32_at(data, off)))
        }
    } else if data[pos] == 4 {
        if room < 4 {
            Err("truncated blob len"@)
        } else if room < 4 + u32_at(data, off) {
            Err("truncated blob data"@)
        } else {
            Ok((SpecValue::Blob(payload_at(data, off)), 5 + u32_at(data, off)))
        }
    } else if data[pos] == 5 {
        if room < 1 {
            Err("truncated bool"@)
        } else {
            Ok((SpecValue::Boolean(data[off] != 0), 2))
        }
    } else if data[pos] == 6 {
        if room < 4 {
            Err("truncated jsonb len"@)
        } else if room < 4 + u32_at(data, off) {
            Err("truncated jsonb data"@)
        } else if !valid_utf8(payload_at(data, off)) {
            Err("invalid utf8 in jsonb"@)
        } else {
            match json_parsed(decode_utf8(payload_at(data, off))) {
                Ok(doc) => Ok((SpecValue::Jsonb(doc), 5 + u32_at(data, off))),
                Err(e) => Err("jsonb parse: "@ + json_error_text(e)),
            }
        }
    } else if data[pos] == 7 {
        if room < 4 {
            Err("truncated vec dim"@)
        } else if room < 4 + 4 * u32_at(data, off) {
            Err("truncated vec data"@)
        } else {
            Ok(
                (
                    SpecValue::Vector(vector_at(data, off + 4, u32_at(data, off) as nat)),
                    5 + 4 * u32_at(data, off),
                ),
            )
        }
    } else if data[pos] == 8 {
        if room < 8 {
            Err("truncated timestamp"@)
        } else {
            Ok((SpecValue::Timestamp(i64_at(data, off)), 9))
        }
    } else if data[pos] == 9 {
        if room < 16 {
            Err("truncated geopoint"@)
        } else {
            Ok((SpecValue::GeoPoint(u64_at(data, off), u64_at(data, off + 8)), 17))
        }
    } else {
        Err("unknown binary type tag: "@ + decimal(data[pos] as nat))
    }
}

/// Whether `r` is what `expected` says it should be: the same value and
/// length, or an error with the same description.
pub open spec fn decoded_as(
    r: Result<(Value, usize), TalonError>,
    expected: Result<(SpecValue, int), Seq<char>>,
) -> bool {
    match expected {
        Ok((v, n)) => r matches Ok((rv, rn)) && rv@ == v && rn == n,
        Err(msg) => r matches Err(e) && e.message() == msg,
    }
}

/// Decodes the value that starts at `pos` in `data`, and says how many bytes
/// it takes up. Fails, with a description of the field at fault, where the
/// bytes from `pos` on are not the encoding of a value.
pub fn decode_value(data: &[u8], pos: usize) -> (r: Result<(Value, usize), TalonError>)
    ensures
        decoded_as(r, decoding(data@, pos as int)),
        r matches Ok((_, n)) ==> pos + n <= data@.len(),
{
    if pos >= data.len() {
        return Err(TalonError::new("unexpected end of binary data"));
    }
    let tag: u8 = data[pos];
    let off: usize = pos + 1;
    let room: usize = data.len() - off;
    if tag == 0 {
        Ok((Value::Null, 1))
    } else if tag == 1 {
        if room < 8 {
            return Err(TalonError::new("truncated i64"));
        }
        Ok((Value::Integer(get_i64(data, off)), 9))
    } else if tag == 2 {
        if room < 8 {
            return Err(TalonError::new("truncated f64"));
        }
        Ok((Value::Float(get_u64(data, off)), 9))
    } else if tag == 3 {
        if room < 4 {
            return Err(TalonError::new("truncated text len"));
        }
        let len: u32 = get_u32(data, off);
        if ((room - 4) as u64) < (len as u64) {
            return Err(TalonError::new("truncated text data"));
        }
        let len: usize = len as usize;
        let start: usize = off + 4;
        match core::str::from_utf8(slice_subrange(data, start, start + len)) {
            Ok(s) => Ok((Value::Text(String::from_str(s)), 5 + len)),
            Err(_) => Err(TalonError::new("invalid utf8 in text")),
        }
    } else if tag == 4 {
        if room < 4 {
            return Err(TalonError::new("truncated blob len"));
        }
        let len: u32 = get_u32(data, off);
        if ((room - 4) as u64) < (len as u64) {
            return Err(TalonError::new("truncated blob data"));
        }
        let len: usize = len as usize;
        let start: usize = off + 4;
        Ok((Value::Blob(slice_to_vec(slice_subrange(data, start, start + len))), 5 + len))
    } else if tag == 5 {
        if room < 1 {
            return Err(TalonError::new("truncated bool"));
        }
        Ok((Value::Boolean(data[off] != 0), 2))
    } else if tag == 6 {
        if room < 4 {
            return Err(TalonError::new("truncated jsonb len"));
        }
        let len: u32 = get_u32(data, off);
        if ((room - 4) as u64) < (len as u64) {
            return Err(TalonError::new("truncated jsonb data"));
        }
        let len: usize = len as usize;
        let start: usize = off + 4;
        match core::str::from_utf8(slice_subrange(data, start, start + len)) {
            Ok(s) => match json_parse(s) {
                Ok(j) => Ok((Value::Jsonb(j), 5 + len)),
                Err(e) => {
                    let mut msg = String::from_str("jsonb parse: ");
                    msg.append(json_error_message(&e).as_str());
                    Err(TalonError(msg))
                },
            },
            Err(_) => Err(TalonError::new("invalid utf8 in jsonb")),
        }
    } else if tag == 7 {
        if room < 4 {
            return Err(TalonError::new("truncated vec dim"));
        }
        let dim: u32 = get_u32(data, off);
        if ((room - 4) as u64) < 4 * (dim as u64) {
            return Err(TalonError::new("truncated vec data"));
        }
        let dim: usize = dim as usize;
        let start: usize = off + 4;
        let mut v: Vec<u32> = Vec::new();
        let mut i: usize = 0;
        while i < dim
            invariant
                i <= dim,
                start + 4 * dim <= data@.len() <= usize::MAX,
                v@ == vector_at(data@, start as int, i as nat),
            decreases dim - i,
        {
            v.push(get_u32(data, start + 4 * i));
            assert(v@ =~= vector_at(data@, start as int, (i + 1) as nat));
            i += 1;
        }
        Ok((Value::Vector(v), 5 + 4 * dim))
    } else if tag == 8 {
        if room < 8 {
            return Err(TalonError::new("truncated timestamp"));
        }
        Ok((Value::Timestamp(get_i64(data, off)), 9))
    } else if tag == 9 {
        if room < 16 {
            return Err(TalonError::new("truncated geopoint"));
        }
        Ok((Value::GeoPoint(get_u64(data, off), get_u64(data, off + 8)), 17))
    } else {
        let mut msg = String::from_str("unknown binary type tag: ");
        push_decimal(&mut msg, tag as u64);
        Err(TalonError(msg))
    }
}

/// What decoding makes of `count` values that stand one after another in
/// `data` from `pos` on: the values and the position behind the last, or the
/// description of the first that fails.
pub open spec fn decoding_run(data: Seq<u8>, pos: int, count: nat) -> Result<
    (Seq<SpecValue>, int),
    Seq<char>,
>
    decreases count,
{
    if count == 0 {
        Ok((Seq::empty(), pos))
    } else {
        match decoding_run(data, pos, (count - 1) as nat) {
            Err(msg) => Err(msg),
            Ok((vs, at)) => match decoding(data, at) {
                Err(msg) => Err(msg),
                Ok((v, n)) => Ok((vs.push(v), at + n)),
            },
        }
    }
}

/// What decoding makes of `rows` rows of `cols` cells each that stand one
/// after another in `data` from `pos` on.
pub open spec fn decoding_rows(data: Seq<u8>, pos: int, rows: nat, cols: nat) -> Result<
    (Seq<Seq<SpecValue>>, int),
    Seq<char>,
>
    decreases rows,
{
    if rows == 0 {
        Ok((Seq::empty(), pos))
    } else {
        match decoding_rows(data, pos, (rows - 1) as nat, cols) {
            Err(msg) => Err(msg),
            Ok((rs, at)) => match decoding_run(data, at, cols) {
                Err(msg) => Err(msg),
                Ok((row, end)) => Ok((rs.push(row), end)),
            },
        }
    }
}

/// The row set that `data` encodes: nothing at all is the empty row set;
/// otherwise a row count and a column count, four bytes each, then the cells
/// row by row.
pub open spec fn row_set(data: Seq<u8>) -> Result<Seq<Seq<SpecValue>>, Seq<char>> {
    if data.len() == 0 {
        Ok(Seq::empty())
    } else if data.len() < 8 {
        Err("binary result too short"@)
    } else {
        match decoding_rows(data, 8, u32_at(data, 0) as nat, u32_at(data, 4) as nat) {
            Err(msg) => Err(msg),
            Ok((rows, _)) => Ok(rows),
        }
    }
}

/// What each cell of each row of `rows` holds.
pub open spec fn grid_views(rows: Seq<Vec<Value>>) -> Seq<Seq<SpecValue>> {
    rows.map_values(|row: Vec<Value>| views(row@))
}

/// Decodes a row set. Fails, with the description of the first cell at
/// fault, where `data` is not the encoding of one.
pub fn decode_rows_bin(data: &[u8]) -> (r: Result<Vec<Vec<Value>>, TalonError>)
    ensures
        match row_set(data@) {
            Ok(rows) => r matches Ok(rv) && grid_views(rv@) == rows && rv@.len() == rows.len(),
            Err(msg) => r matches Err(e) && e.message() == msg,
        },
{
    if data.len() == 0 {
        let rows: Vec<Vec<Value>> = Vec::new();
        assert(grid_views(rows@) =~= Seq::<Seq<SpecValue>>::empty());
        return Ok(rows);
    }
    if data.len() < 8 {
        return Err(TalonError::new("binary result too short"));
    }
    let row_count: u32 = get_u32(data, 0);
    let col_count: u32 = get_u32(data, 4);
    let mut pos: usize = 8;
    let mut rows: Vec<Vec<Value>> = Vec::new();
    let mut i: u32 = 0;
    assert(grid_views(rows@) =~= Seq::<Seq<SpecValue>>::empty());
    while i < row_count
        invariant
            i <= row_count,
            8 <= pos <= data@.len() <= usize::MAX,
            row_count == u32_at(data@, 0),
            col_count == u32_at(data@, 4),
            decoding_rows(data@, 8, i as nat, col_count as nat) == Ok::<
                (Seq<Seq<SpecValue>>, int),
                Seq<char>,
            >((grid_views(rows@), pos as int)),
        decreases row_count - i,
    {
        let mut row: Vec<Value> = Vec::new();
        let ghost row_start = pos;
        let mut j: u32 = 0;
        assert(views(row@) =~= Seq::<SpecValue>::empty());
        while j < col_count
            invariant
                j <= col_count,
                i < row_count,
                8 <= pos <= data@.len() <= usize::MAX,
                row_count == u32_at(data@, 0),
                col_count == u32_at(data@, 4),
                decoding_rows(data@, 8, i as nat, col_count as nat) == Ok::<
                    (Seq<Seq<SpecValue>>, int),
                    Seq<char>,
                >((grid_views(rows@), row_start as int)),
                decoding_run(data@, row_start as int, j as nat) == Ok::<
                    (Seq<SpecValue>, int),
                    Seq<char>,
                >((views(row@), pos as int)),
            ensures
                j == col_count,
            decreases col_count - j,
        {
            match decode_value(data, pos) {
                Ok((val, consumed)) => {
                    proof {
                        assert(views(row@.push(val)) =~= views(row@).push(val@));
                    }
                    row.push(val);
                    pos += consumed;
                },
                Err(e) => {
                    proof {
                        assert(decoding(data@, pos as int) is Err);
                        assert(decoding_run(data@, row_start as int, (j + 1) as nat) is Err);
                        lemma_run_fails_on(
                            data@,
                            row_start as int,
                            (j + 1) as nat,
                            col_count as nat,
                        );
                        assert(decoding_rows(data@, 8, (i + 1) as nat, col_count as nat) is Err);
                        lemma_rows_fail_on(
                            data@,
                            8,
                            (i + 1) as nat,
                            row_count as nat,
                            col_count as nat,
                        );
                    }
                    return Err(e);
                },
            }
            j += 1;
        }
        proof {
            assert(grid_views(rows@.push(row)) =~= grid_views(rows@).push(views(row@)));
        }
        rows.push(row);
        i += 1;
    }
    Ok(rows)
}

/// A run that fails after `k` values fails, in the same way, however many
/// more are asked for.
pub proof fn lemma_run_fails_on(data: Seq<u8>, pos: int, k: nat, count: nat)
    requires
        k <= count,
        decoding_run(data, pos, k) is Err,
    ensures
        decoding_run(data, pos, count) == decoding_run(data, pos, k),
    decreases count,
{
    if k < count {
        lemma_run_fails_on(data, pos, k, (count - 1) as nat);
    }
}

/// Rows that fail after `k` rows fail, in the same way, however many more
/// are asked for.
pub proof fn lemma_rows_fail_on(data: Seq<u8>, pos: int, k: nat, rows: nat, cols: nat)
    requires
        k <= rows,
        decoding_rows(data, pos, k, cols) is Err,
    ensures
        decoding_rows(data, pos, rows, cols) == decoding_rows(data, pos, k, cols),
    decreases rows,
{
    if k < rows {
        lemma_rows_fail_on(data, pos, k, (rows - 1) as nat, cols);
    }
}

/// The hit that stands at index `i` of a hit list: an identifier and the
/// bits of a distance.
pub open spec fn hit_at(data: Seq<u8>, i: int) -> (u64, u32) {
    (u64_at(data, 4 + 12 * i), u32_at(data, 4 + 12 * i + 8))
}

/// The hit list that `data` encodes: a count field, then twelve bytes for
/// each hit.
pub open spec fn hit_list(data: Seq<u8>) -> Result<Seq<(u64, u32)>, Seq<char>> {
    if data.len() < 4 {
        Err("vector binary result too short"@)
    } else if data.len() < 4 + 12 * u32_at(data, 0) {
        Err("vector binary result truncated"@)
    } else {
        Ok(Seq::new(u32_at(data, 0) as nat, |i: int| hit_at(data, i)))
    }
}

/// Decodes a list of search hits, each an identifier and the bits of a
/// 32-bit distance, in the order in which they stand.
pub fn decode_vector_bin(data: &[u8]) -> (r: Result<Vec<(u64, u32)>, TalonError>)
    ensures
        match hit_list(data@) {
            Ok(hits) => r matches Ok(rv) && rv@ == hits,
            Err(msg) => r matches Err(e) && e.message() == msg,
        },
{
    if data.len() < 4 {
        return Err(TalonError::new("vector binary result too short"));
    }
    let count: u32 = get_u32(data, 0);
    if ((data.len() - 4) as u64) < 12 * (count as u64) {
        return Err(TalonError::new("vector binary result truncated"));
    }
    let count: usize = count as usize;
    let mut out: Vec<(u64, u32)> = Vec::new();
    let mut i: usize = 0;
    while i < count
        invariant
            i <= count,
            4 + 12 * count <= data@.len() <= usize::MAX,
            out@ == Seq::new(i as nat, |k: int| hit_at(data@, k)),
        decreases count - i,
    {
        let off: usize = 4 + 12 * i;
        let id: u64 = get_u64(data, off);
        let dist: u32 = get_u32(data, off + 8);
        out.push((id, dist));
        assert(out@ =~= Seq::new((i + 1) as nat, |k: int| hit_at(data@, k)));
        i += 1;
    }
    Ok(out)
}

/// The number of cells in each row of a rectangular grid: that of its first
/// row, and none where it has no row.
pub open spec fn width(rows: Seq<Seq<SpecValue>>) -> nat {
    if rows.len() == 0 {
        0
    } else {
        rows[0].len()
    }
}

/// Whether every row of `rows` has as many cells as the first.
pub open spec fn is_grid(rows: Seq<Seq<SpecValue>>) -> bool {
    forall|i: int| 0 <= i < rows.len() ==> (#[trigger] rows[i]).len() == width(rows)
}

/// The encodings of the cells of `rows`, row by row.
pub open spec fn rows_encoding(rows: Seq<Seq<SpecValue>>) -> Seq<u8>
    decreases rows.len(),
{
    if rows.len() == 0 {
        Seq::empty()
    } else {
        rows_encoding(rows.drop_last()) + encodings(rows.last())
    }
}

/// The encoding of a row set: the row count and the column count, then the
/// cells row by row.
pub open spec fn grid_encoding(rows: Seq<Seq<SpecValue>>) -> Seq<u8> {
    le_u32(count_field(rows.len())) + le_u32(count_field(width(rows))) + rows_encoding(rows)
}

/// Encodes a row set. Fails where the rows are not all of one length.
pub fn encode_rows_bin(rows: &[Vec<Value>]) -> (r: Result<Vec<u8>, TalonError>)
    ensures
        is_grid(grid_views(rows@)) ==> (r matches Ok(buf) && buf@ == grid_encoding(
            grid_views(rows@),
        )),
        !is_grid(grid_views(rows@)) ==> (r matches Err(e) && e.message()
            == "rows differ in length"@),
{
    let ghost grid = grid_views(rows@);
    let cols: usize = if rows.len() == 0 {
        0
    } else {
        rows[0].len()
    };
    assert(cols == width(grid));
    let mut buf: Vec<u8> = Vec::new();
    put_u32(&mut buf, count_of(rows.len()));
    put_u32(&mut buf, count_of(cols));
    let ghost head = buf@;
    let mut i: usize = 0;
    while i < rows.len()
        invariant
            i <= rows.len(),
            grid == grid_views(rows@),
            cols == width(grid),
            forall|k: int| 0 <= k < i ==> (#[trigger] grid[k]).len() == cols,
            buf@ == head + rows_encoding(grid.take(i as int)),
        decreases rows.len() - i,
    {
        let row: &Vec<Value> = &rows[i];
        assert(grid[i as int] == views(row@));
        if row.len() != cols {
            return Err(TalonError::new("rows differ in length"));
        }
        let ghost row_head = buf@;
        let mut j: usize = 0;
        while j < row.len()
            invariant
                j <= row.len(),
                buf@ == row_head + encodings(views(row@.take(j as int))),
            decreases row.len() - j,
        {
            encode_value(&mut buf, &row[j]);
            proof {
                let now = views(row@.take(j + 1));
                assert(now.drop_last() =~= views(row@.take(j as int)));
                assert(now.last() == row@[j as int]@);
                assert(buf@ =~= row_head + encodings(now));
            }
            j += 1;
        }
        proof {
            assert(row@.take(row.len() as int) =~= row@);
            assert(grid.take(i + 1).drop_last() =~= grid.take(i as int));
            assert(grid.take(i + 1).last() == views(row@));
            assert(buf@ =~= head + rows_encoding(grid.take(i + 1)));
        }
        i += 1;
    }
    assert(grid.take(rows.len() as int) =~= grid);
    Ok(buf)
}

/// The twelve bytes of one hit.
pub open spec fn hit_bytes(hit: (u64, u32)) -> Seq<u8> {
    le_u64(hit.0) + le_u32(hit.1)
}

/// The bytes of the hits of `hits`, one after another.
pub open spec fn hits_bytes(hits: Seq<(u64, u32)>) -> Seq<u8>
    decreases hits.len(),
{
    if hits.len() == 0 {
        Seq::empty()
    } else {
        hits_bytes(hits.drop_last()) + hit_bytes(hits.last())
    }
}

/// The encoding of a hit list: a count field, then each hit in order.
pub open spec fn hits_encoding(hits: Seq<(u64, u32)>) -> Seq<u8> {
    le_u32(count_field(hits.len())) + hits_bytes(hits)
}

/// Encodes a list of search hits, in the order given.
pub fn encode_vector_bin(hits: &[(u64, u32)]) -> (buf: Vec<u8>)
    ensures
        buf@ == hits_encoding(hits@),
{
    let mut buf: Vec<u8> = Vec::new();
    put_u32(&mut buf, count_of(hits.len()));
    let ghost head = buf@;
    let mut i: usize = 0;
    while i < hits.len()
        invariant
            i <= hits.len(),
            buf@ == head + hits_bytes(hits@.take(i as int)),
        decreases hits.len() - i,
    {
        let hit: (u64, u32) = hits[i];
        put_u64(&mut buf, hit.0);
        put_u32(&mut buf, hit.1);
        proof {
            assert(hits@.take(i + 1).drop_last() =~= hits@.take(i as int));
            assert(buf@ =~= head + hits_bytes(hits@.take(i + 1)));
        }
        i += 1;
    }
    assert(hits@.take(hits.len() as int) =~= hits@);
    buf
}

} // verus!

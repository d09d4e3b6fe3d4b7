//! What holds of the binary encoding as a whole: decoding undoes encoding,
//! a cut-off encoding is refused, and so is an unknown tag.

use vstd::prelude::*;
use vstd::utf8::{encode_utf8, encode_utf8_decode_utf8, encode_utf8_valid_utf8};
use crate::bytes::{
    i64_at, le_i64, le_u32, le_u64, lemma_i64_read_back, lemma_u32_read_back,
    lemma_u64_read_back, u32_at, u64_at,
};
use crate::codec::{
    count_field, decoding, decoding_rows, decoding_run, encoding, encodings, grid_encoding,
    hit_at, hit_bytes, hit_list, hits_bytes, hits_encoding, is_grid, payload_at, row_set,
    rows_encoding, sized, vector_at, vector_bytes, width,
};
use crate::json::{json_parsed, json_text, JsonDoc};
use crate::text::decimal;
use crate::value::SpecValue;

verus! {

/// Whether every length in `v` can be told in its 32-bit field.
pub open spec fn fits(v: SpecValue) -> bool {
    match v {
        SpecValue::Text(s) => encode_utf8(s).len() <= u32::MAX,
        SpecValue::Blob(b) => b.len() <= u32::MAX,
        SpecValue::Jsonb(doc) => encode_utf8(json_text(doc)).len() <= u32::MAX,
        SpecValue::Vector(v) => v.len() <= u32::MAX,
        _ => true,
    }
}

/// Whether `v` can be sent and had back: every length in it fits its field,
/// and a JSON document in it is what its own text is read as.
pub open spec fn survives(v: SpecValue) -> bool {
    &&& fits(v)
    &&& v matches SpecValue::Jsonb(doc) ==> json_parsed(json_text(doc)) == Ok::<
        JsonDoc,
        serde_json::Error,
    >(doc)
}

/// A vector's bytes are four for each component, and each component can be
/// read back from its place.
pub proof fn lemma_vector_bytes(before: Seq<u8>, v: Seq<u32>, after: Seq<u8>)
    ensures
        vector_bytes(v).len() == 4 * v.len(),
        vector_at(before + vector_bytes(v) + after, before.len() as int, v.len()) == v,
    decreases v.len(),
{
    let s = before + vector_bytes(v) + after;
    let at = before.len() as int;
    if v.len() > 0 {
        let init = v.drop_last();
        let tail = le_u32(v.last()) + after;
        lemma_vector_bytes(before, init, tail);
        assert(s =~= before + vector_bytes(init) + tail);
        assert(s =~= (before + vector_bytes(init)) + le_u32(v.last()) + after);
        lemma_u32_read_back(before + vector_bytes(init), v.last(), after);
        assert forall|i: int| 0 <= i < v.len() implies vector_at(s, at, v.len())[i] == v[i] by {
            if i < init.len() {
                assert(vector_at(s, at, init.len())[i] == init[i]);
            }
        }
    }
    assert(vector_at(s, at, v.len()) =~= v);
}

/// A sized payload can be read back from its place.
proof fn lemma_sized_read_back(before: Seq<u8>, payload: Seq<u8>, after: Seq<u8>)
    requires
        payload.len() <= u32::MAX,
    ensures
        u32_at(before + sized(payload) + after, before.len() as int) == payload.len(),
        payload_at(before + sized(payload) + after, before.len() as int) == payload,
        sized(payload).len() == 4 + payload.len(),
{
    let s = before + sized(payload) + after;
    let n = count_field(payload.len());
    assert(s =~= before + le_u32(n) + (payload + after));
    lemma_u32_read_back(before, n, payload + after);
    assert(payload_at(s, before.len() as int) =~= payload);
}

/// A tag and a signed number can be read back from their place.
proof fn lemma_round_trip_integer(before: Seq<u8>, tag: u8, i: i64, after: Seq<u8>)
    ensures
        i64_at(before + (seq![tag] + le_i64(i)) + after, before.len() as int + 1) == i,
        (seq![tag] + le_i64(i)).len() == 9,
        (before + (seq![tag] + le_i64(i)) + after)[before.len() as int] == tag,
{
    let s = before + (seq![tag] + le_i64(i)) + after;
    assert(s =~= (before + seq![tag]) + le_i64(i) + after);
    lemma_i64_read_back(before + seq![tag], i, after);
}

/// The tag of a float and its bits can be read back from their place.
proof fn lemma_round_trip_float(before: Seq<u8>, bits: u64, after: Seq<u8>)
    ensures
        u64_at(before + (seq![2u8] + le_u64(bits)) + after, before.len() as int + 1) == bits,
        (seq![2u8] + le_u64(bits)).len() == 9,
        (before + (seq![2u8] + le_u64(bits)) + after)[before.len() as int] == 2,
{
    let s = before + (seq![2u8] + le_u64(bits)) + after;
    assert(s =~= (before + seq![2u8]) + le_u64(bits) + after);
    lemma_u64_read_back(before + seq![2u8], bits, after);
}

/// A tag and a sized payload can be read back from their place.
proof fn lemma_round_trip_sized(before: Seq<u8>, tag: u8, payload: Seq<u8>, after: Seq<u8>)
    requires
        payload.len() <= u32::MAX,
    ensures
        u32_at(before + (seq![tag] + sized(payload)) + after, before.len() as int + 1)
            == payload.len(),
        payload_at(before + (seq![tag] + sized(payload)) + after, before.len() as int + 1)
            == payload,
        (seq![tag] + sized(payload)).len() == 5 + payload.len(),
        (before + (seq![tag] + sized(payload)) + after)[before.len() as int] == tag,
{
    let s = before + (seq![tag] + sized(payload)) + after;
    assert(s =~= (before + seq![tag]) + sized(payload) + after);
    lemma_sized_read_back(before + seq![tag], payload, after);
}

/// The tag of a vector, its dimension and its components can be read
/// back from their place.
proof fn lemma_round_trip_vector(before: Seq<u8>, c: Seq<u32>, after: Seq<u8>)
    requires
        c.len() <= u32::MAX,
    ensures
        ({
            let s = before + (seq![7u8] + le_u32(count_field(c.len())) + vector_bytes(c)) + after;
            &&& s[before.len() as int] == 7
            &&& u32_at(s, before.len() as int + 1) == c.len()
            &&& vector_at(s, before.len() as int + 5, c.len()) == c
            &&& s.len() == before.len() + 5 + 4 * c.len() + after.len()
        }),
{
    let dim = count_field(c.len());
    let s = before + (seq![7u8] + le_u32(dim) + vector_bytes(c)) + after;
    assert(s =~= (before + seq![7u8]) + le_u32(dim) + (vector_bytes(c) + after));
    lemma_u32_read_back(before + seq![7u8], dim, vector_bytes(c) + after);
    assert(s =~= (before + seq![7u8] + le_u32(dim)) + vector_bytes(c) + after);
    lemma_vector_bytes(before + seq![7u8] + le_u32(dim), c, after);
}

/// The tag of a point and its two coordinates can be read back from their
/// place.
proof fn lemma_round_trip_geo(before: Seq<u8>, lat: u64, lon: u64, after: Seq<u8>)
    ensures
        ({
            let s = before + (seq![9u8] + le_u64(lat) + le_u64(lon)) + after;
            &&& s[before.len() as int] == 9
            &&& u64_at(s, before.len() as int + 1) == lat
            &&& u64_at(s, before.len() as int + 9) == lon
            &&& s.len() == before.len() + 17 + after.len()
        }),
{
    let s = before + (seq![9u8] + le_u64(lat) + le_u64(lon)) + after;
    assert(s =~= (before + seq![9u8]) + le_u64(lat) + (le_u64(lon) + after));
    lemma_u64_read_back(before + seq![9u8], lat, le_u64(lon) + after);
    assert(s =~= (before + seq![9u8] + le_u64(lat)) + le_u64(lon) + after);
    lemma_u64_read_back(before + seq![9u8] + le_u64(lat), lon, after);
}

/// Decoding undoes encoding: where the encoding of `v` stands in a buffer,
/// whatever stands before and after it, decoding at its first byte gives
/// `v` and the length of the encoding.
pub proof fn lemma_value_round_trip(before: Seq<u8>, v: SpecValue, after: Seq<u8>)
    requires
        survives(v),
    ensures
        decoding(before + encoding(v) + after, before.len() as int) == Ok::<
            (SpecValue, int),
            Seq<char>,
        >((v, encoding(v).len() as int)),
{
    let s = before + encoding(v) + after;
    let pos = before.len() as int;
    match v {
        SpecValue::Null => {
            assert(s[pos] == encoding(v)[0]);
        },
        SpecValue::Integer(i) => {
            lemma_round_trip_integer(before, 1, i, after);
        },
        SpecValue::Float(bits) => {
            lemma_round_trip_float(before, bits, after);
        },
        SpecValue::Text(t) => {
            lemma_round_trip_sized(before, 3, encode_utf8(t), after);
            encode_utf8_valid_utf8(t);
            encode_utf8_decode_utf8(t);
        },
        SpecValue::Blob(b) => {
            lemma_round_trip_sized(before, 4, b, after);
        },
        SpecValue::Boolean(b) => {
            assert(s[pos] == encoding(v)[0]);
            assert(s[pos + 1] == encoding(v)[1]);
        },
        SpecValue::Jsonb(doc) => {
            lemma_round_trip_sized(before, 6, encode_utf8(json_text(doc)), after);
            encode_utf8_valid_utf8(json_text(doc));
            encode_utf8_decode_utf8(json_text(doc));
        },
        SpecValue::Vector(c) => {
            lemma_round_trip_vector(before, c, after);
            lemma_vector_bytes(before, c, after);
        },
        SpecValue::Timestamp(t) => {
            lemma_round_trip_integer(before, 8, t, after);
        },
        SpecValue::GeoPoint(lat, lon) => {
            lemma_round_trip_geo(before, lat, lon, after);
        },
    }
}

/// One more value behind a run that decodes: where the run decodes up to
/// the place of the bytes `e`, and those decode as `last`, the longer run
/// decodes too.
proof fn lemma_run_step(
    before: Seq<u8>,
    x: Seq<u8>,
    e: Seq<u8>,
    after: Seq<u8>,
    init: Seq<SpecValue>,
    last: SpecValue,
)
    requires
        decoding_run(before + x + (e + after), before.len() as int, init.len()) == Ok::<
            (Seq<SpecValue>, int),
            Seq<char>,
        >((init, (before.len() + x.len()) as int)),
        decoding((before + x) + e + after, (before + x).len() as int) == Ok::<
            (SpecValue, int),
            Seq<char>,
        >((last, e.len() as int)),
    ensures
        decoding_run(before + (x + e) + after, before.len() as int, (init.len() + 1) as nat)
            == Ok::<(Seq<SpecValue>, int), Seq<char>>(
            (init.push(last), (before.len() + (x + e).len()) as int),
        ),
{
    let s = before + (x + e) + after;
    assert(s =~= before + x + (e + after));
    assert(s =~= (before + x) + e + after);
}

/// Decoding undoes encoding for a run of values: where their encodings stand
/// one after another in a buffer, decoding as many values gives them back,
/// and ends right behind the last.
pub proof fn lemma_run_round_trip(before: Seq<u8>, vs: Seq<SpecValue>, after: Seq<u8>)
    requires
        forall|i: int| 0 <= i < vs.len() ==> survives(#[trigger] vs[i]),
    ensures
        decoding_run(before + encodings(vs) + after, before.len() as int, vs.len()) == Ok::<
            (Seq<SpecValue>, int),
            Seq<char>,
        >((vs, (before.len() + encodings(vs).len()) as int)),
    decreases vs.len(),
{
    if vs.len() == 0 {
        assert(vs =~= Seq::<SpecValue>::empty());
    } else {
        let init = vs.drop_last();
        let last = vs.last();
        lemma_run_round_trip(before, init, encoding(last) + after);
        lemma_value_round_trip(before + encodings(init), last, after);
        lemma_run_step(before, encodings(init), encoding(last), after, init, last);
        assert(init.push(last) =~= vs);
    }
}

/// Decoding undoes the encoding of a parameter list: the count field tells
/// how many values there are, and decoding as many from behind it gives
/// them back, in order, and ends at the end.
pub proof fn theorem_params_round_trip(vs: Seq<SpecValue>)
    requires
        vs.len() <= u32::MAX,
        forall|i: int| 0 <= i < vs.len() ==> survives(#[trigger] vs[i]),
    ensures
        ({
            let data = le_u32(count_field(vs.len())) + encodings(vs);
            &&& u32_at(data, 0) == vs.len()
            &&& decoding_run(data, 4, vs.len()) == Ok::<(Seq<SpecValue>, int), Seq<char>>(
                (vs, data.len() as int),
            )
        }),
{
    let n = count_field(vs.len());
    let head = le_u32(n);
    let body = encodings(vs);
    lemma_count_read_back(n, body);
    lemma_run_round_trip(head, vs, Seq::<u8>::empty());
    assert(head + body + Seq::<u8>::empty() =~= head + body);
}

/// A count field at the head of a buffer can be read back.
proof fn lemma_count_read_back(n: u32, body: Seq<u8>)
    ensures
        u32_at(le_u32(n) + body, 0) == n,
        le_u32(n).len() == 4,
{
    let empty = Seq::<u8>::empty();
    assert(le_u32(n) + body =~= empty + le_u32(n) + body);
    lemma_u32_read_back(empty, n, body);
}

/// One more row behind rows that decode: where the rows decode up to the
/// place of the bytes `e`, and those decode as the run `last`, the rows with
/// that one more decode too.
proof fn lemma_rows_step(
    before: Seq<u8>,
    x: Seq<u8>,
    e: Seq<u8>,
    after: Seq<u8>,
    init: Seq<Seq<SpecValue>>,
    last: Seq<SpecValue>,
)
    requires
        decoding_rows(before + x + (e + after), before.len() as int, init.len(), last.len())
            == Ok::<(Seq<Seq<SpecValue>>, int), Seq<char>>(
            (init, (before.len() + x.len()) as int),
        ),
        decoding_run((before + x) + e + after, (before + x).len() as int, last.len()) == Ok::<
            (Seq<SpecValue>, int),
            Seq<char>,
        >((last, ((before + x).len() + e.len()) as int)),
    ensures
        decoding_rows(
            before + (x + e) + after,
            before.len() as int,
            (init.len() + 1) as nat,
            last.len(),
        ) == Ok::<(Seq<Seq<SpecValue>>, int), Seq<char>>(
            (init.push(last), (before.len() + (x + e).len()) as int),
        ),
{
    let s = before + (x + e) + after;
    assert(s =~= before + x + (e + after));
    assert(s =~= (before + x) + e + after);
}

/// Decoding undoes encoding for the rows of a grid.
pub proof fn lemma_rows_round_trip(
    before: Seq<u8>,
    rows: Seq<Seq<SpecValue>>,
    cols: nat,
    after: Seq<u8>,
)
    requires
        forall|i: int| 0 <= i < rows.len() ==> (#[trigger] rows[i]).len() == cols,
        forall|i: int, j: int|
            0 <= i < rows.len() && 0 <= j < rows[i].len() ==> survives(#[trigger] rows[i][j]),
    ensures
        decoding_rows(before + rows_encoding(rows) + after, before.len() as int, rows.len(), cols)
            == Ok::<(Seq<Seq<SpecValue>>, int), Seq<char>>(
            (rows, (before.len() + rows_encoding(rows).len()) as int),
        ),
    decreases rows.len(),
{
    if rows.len() == 0 {
        assert(rows =~= Seq::<Seq<SpecValue>>::empty());
    } else {
        let init = rows.drop_last();
        let last = rows.last();
        assert forall|i: int, j: int|
            0 <= i < init.len() && 0 <= j < init[i].len() implies survives(
            #[trigger] init[i][j],
        ) by {
            assert(init[i] == rows[i]);
        }
        lemma_rows_round_trip(before, init, cols, encodings(last) + after);
        assert forall|j: int| 0 <= j < last.len() implies survives(#[trigger] last[j]) by {
            assert(last[j] == rows[rows.len() - 1][j]);
        }
        lemma_run_round_trip(before + rows_encoding(init), last, after);
        lemma_rows_step(before, rows_encoding(init), encodings(last), after, init, last);
        assert(init.push(last) =~= rows);
    }
}

/// Decoding a row set undoes encoding it: a grid whose counts fit their
/// fields and whose cells can each be sent and had back is what its
/// encoding decodes to.
pub proof fn theorem_row_set_round_trip(rows: Seq<Seq<SpecValue>>)
    requires
        is_grid(rows),
        rows.len() <= u32::MAX,
        width(rows) <= u32::MAX,
        forall|i: int, j: int|
            0 <= i < rows.len() && 0 <= j < rows[i].len() ==> survives(#[trigger] rows[i][j]),
    ensures
        row_set(grid_encoding(rows)) == Ok::<Seq<Seq<SpecValue>>, Seq<char>>(rows),
{
    let r = count_field(rows.len());
    let c = count_field(width(rows));
    let body = rows_encoding(rows);
    lemma_header_read_back(r, c, body);
    lemma_rows_round_trip(le_u32(r) + le_u32(c), rows, width(rows), Seq::<u8>::empty());
    assert(grid_encoding(rows) =~= (le_u32(r) + le_u32(c)) + body + Seq::<u8>::empty());
}

/// The two count fields at the head of a row set can be read back.
proof fn lemma_header_read_back(r: u32, c: u32, body: Seq<u8>)
    ensures
        u32_at(le_u32(r) + le_u32(c) + body, 0) == r,
        u32_at(le_u32(r) + le_u32(c) + body, 4) == c,
        (le_u32(r) + le_u32(c)).len() == 8,
{
    let s = le_u32(r) + le_u32(c) + body;
    let empty = Seq::<u8>::empty();
    assert(s =~= empty + le_u32(r) + (le_u32(c) + body));
    lemma_u32_read_back(empty, r, le_u32(c) + body);
    lemma_u32_read_back(le_u32(r), c, body);
}

/// A hit can be read back from its place.
proof fn lemma_hit_read_back(before: Seq<u8>, hit: (u64, u32), after: Seq<u8>)
    ensures
        u64_at(before + hit_bytes(hit) + after, before.len() as int) == hit.0,
        u32_at(before + hit_bytes(hit) + after, before.len() as int + 8) == hit.1,
        hit_bytes(hit).len() == 12,
{
    let s = before + hit_bytes(hit) + after;
    assert(s =~= before + le_u64(hit.0) + (le_u32(hit.1) + after));
    lemma_u64_read_back(before, hit.0, le_u32(hit.1) + after);
    assert(s =~= (before + le_u64(hit.0)) + le_u32(hit.1) + after);
    lemma_u32_read_back(before + le_u64(hit.0), hit.1, after);
}

/// One more hit behind hits that can be read back: where the bytes `e`
/// give `last` at their place, the longer list can be read back too.
proof fn lemma_hits_step(
    count: Seq<u8>,
    x: Seq<u8>,
    e: Seq<u8>,
    after: Seq<u8>,
    init: Seq<(u64, u32)>,
    last: (u64, u32),
)
    requires
        count.len() == 4,
        x.len() == 12 * init.len(),
        forall|i: int|
            0 <= i < init.len() ==> #[trigger] hit_at(count + x + (e + after), i) == init[i],
        u64_at((count + x) + e + after, (count + x).len() as int) == last.0,
        u32_at((count + x) + e + after, (count + x).len() as int + 8) == last.1,
    ensures
        forall|i: int|
            0 <= i < init.len() + 1 ==> #[trigger] hit_at(count + (x + e) + after, i) == init.push(
                last,
            )[i],
{
    let s = count + (x + e) + after;
    assert(s =~= count + x + (e + after));
    assert(s =~= (count + x) + e + after);
}

/// The bytes of a hit list are twelve for each hit, and each hit can be read
/// back from its place.
proof fn lemma_hits_bytes(count: Seq<u8>, hits: Seq<(u64, u32)>, after: Seq<u8>)
    requires
        count.len() == 4,
    ensures
        hits_bytes(hits).len() == 12 * hits.len(),
        forall|i: int|
            0 <= i < hits.len() ==> #[trigger] hit_at(count + hits_bytes(hits) + after, i)
                == hits[i],
    decreases hits.len(),
{
    if hits.len() > 0 {
        let init = hits.drop_last();
        let last = hits.last();
        lemma_hits_bytes(count, init, hit_bytes(last) + after);
        lemma_hit_read_back(count + hits_bytes(init), last, after);
        lemma_hits_step(count, hits_bytes(init), hit_bytes(last), after, init, last);
        assert(init.push(last) =~= hits);
    }
}

/// Decoding a hit list undoes encoding it, and keeps the order of the hits.
pub proof fn theorem_hit_list_round_trip(hits: Seq<(u64, u32)>)
    requires
        hits.len() <= u32::MAX,
    ensures
        hit_list(hits_encoding(hits)) == Ok::<Seq<(u64, u32)>, Seq<char>>(hits),
{
    let n = count_field(hits.len());
    let s = hits_encoding(hits);
    let empty = Seq::<u8>::empty();
    assert(s =~= empty + le_u32(n) + hits_bytes(hits));
    lemma_u32_read_back(empty, n, hits_bytes(hits));
    lemma_hits_bytes(le_u32(n), hits, empty);
    assert(s =~= le_u32(n) + hits_bytes(hits) + empty);
    assert(hit_list(s)->Ok_0 =~= hits);
}

/// A tag byte above nine is refused, and the description names it.
pub proof fn lemma_unknown_tag(data: Seq<u8>, pos: int)
    requires
        0 <= pos < data.len(),
        data[pos] > 9,
    ensures
        decoding(data, pos) == Err::<(SpecValue, int), Seq<char>>(
            "unknown binary type tag: "@ + decimal(data[pos] as nat),
        ),
{
}

/// A sized payload that is cut off behind its length field still tells
/// its full length.
proof fn lemma_cut_sized(before: Seq<u8>, tag: u8, payload: Seq<u8>, k: int)
    requires
        payload.len() <= u32::MAX,
        5 <= k < 5 + payload.len(),
    ensures
        ({
            let s = before + (seq![tag] + sized(payload)).take(k);
            &&& s.len() == before.len() + k
            &&& s[before.len() as int] == tag
            &&& u32_at(s, before.len() as int + 1) == payload.len()
        }),
{
    let whole = seq![tag] + sized(payload);
    let s = before + whole.take(k);
    let n = count_field(payload.len());
    assert(whole.len() == 5 + payload.len());
    assert(s =~= (before + seq![tag]) + le_u32(n) + payload.take(k - 5));
    lemma_u32_read_back(before + seq![tag], n, payload.take(k - 5));
}

/// A vector that is cut off behind its dimension still tells its full
/// dimension.
proof fn lemma_cut_vector(before: Seq<u8>, c: Seq<u32>, k: int)
    requires
        c.len() <= u32::MAX,
        5 <= k < 5 + 4 * c.len(),
    ensures
        ({
            let s = before + (seq![7u8] + le_u32(count_field(c.len())) + vector_bytes(c)).take(k);
            &&& s.len() == before.len() + k
            &&& s[before.len() as int] == 7
            &&& u32_at(s, before.len() as int + 1) == c.len()
        }),
{
    let n = count_field(c.len());
    let whole = seq![7u8] + le_u32(n) + vector_bytes(c);
    let s = before + whole.take(k);
    lemma_vector_bytes(before, c, before);
    assert(whole.len() == 5 + 4 * c.len());
    assert(s =~= (before + seq![7u8]) + le_u32(n) + vector_bytes(c).take(k - 5));
    lemma_u32_read_back(before + seq![7u8], n, vector_bytes(c).take(k - 5));
}

/// The length of an encoding: the tag, then what the payload takes.
proof fn lemma_encoding_len(v: SpecValue)
    ensures
        encoding(v).len() == (match v {
            SpecValue::Null => 1,
            SpecValue::Integer(_) => 9,
            SpecValue::Float(_) => 9,
            SpecValue::Text(t) => 5 + encode_utf8(t).len(),
            SpecValue::Blob(b) => 5 + b.len(),
            SpecValue::Boolean(_) => 2,
            SpecValue::Jsonb(doc) => 5 + encode_utf8(json_text(doc)).len(),
            SpecValue::Vector(c) => 5 + 4 * c.len(),
            SpecValue::Timestamp(_) => 9,
            SpecValue::GeoPoint(_, _) => 17,
        }),
{
    if let SpecValue::Vector(c) = v {
        lemma_vector_bytes(Seq::empty(), c, Seq::empty());
    }
}

/// A cut-off encoding is refused: where only the first `k` bytes of the
/// encoding of `v` stand at the end of a buffer, and not all of them,
/// decoding there fails.
pub proof fn lemma_truncation_fails(before: Seq<u8>, v: SpecValue, k: int)
    requires
        fits(v),
        0 <= k < encoding(v).len(),
    ensures
        decoding(before + encoding(v).take(k), before.len() as int) is Err,
{
    let s = before + encoding(v).take(k);
    let pos = before.len() as int;
    let empty = Seq::<u8>::empty();
    lemma_encoding_len(v);
    assert(s.len() == pos + k);
    if k > 0 {
        assert(s[pos] == encoding(v)[0]);
        match v {
            SpecValue::Null => {},
            SpecValue::Integer(i) => {
                lemma_i64_read_back(empty, i, empty);
                assert(decoding(s, pos) == Err::<(SpecValue, int), Seq<char>>("truncated i64"@));
            },
            SpecValue::Float(bits) => {
                lemma_u64_read_back(empty, bits, empty);
                assert(decoding(s, pos) == Err::<(SpecValue, int), Seq<char>>("truncated f64"@));
            },
            SpecValue::Text(t) => {
                if k >= 5 {
                    lemma_cut_sized(before, 3, encode_utf8(t), k);
                    assert(decoding(s, pos) == Err::<(SpecValue, int), Seq<char>>(
                        "truncated text data"@,
                    ));
                } else {
                    assert(decoding(s, pos) == Err::<(SpecValue, int), Seq<char>>(
                        "truncated text len"@,
                    ));
                }
            },
            SpecValue::Blob(b) => {
                if k >= 5 {
                    lemma_cut_sized(before, 4, b, k);
                    assert(decoding(s, pos) == Err::<(SpecValue, int), Seq<char>>(
                        "truncated blob data"@,
                    ));
                } else {
                    assert(decoding(s, pos) == Err::<(SpecValue, int), Seq<char>>(
                        "truncated blob len"@,
                    ));
                }
            },
            SpecValue::Boolean(b) => {
                assert(decoding(s, pos) == Err::<(SpecValue, int), Seq<char>>("truncated bool"@));
            },
            SpecValue::Jsonb(doc) => {
                if k >= 5 {
                    lemma_cut_sized(before, 6, encode_utf8(json_text(doc)), k);
                    assert(decoding(s, pos) == Err::<(SpecValue, int), Seq<char>>(
                        "truncated jsonb data"@,
                    ));
                } else {
                    assert(decoding(s, pos) == Err::<(SpecValue, int), Seq<char>>(
                        "truncated jsonb len"@,
                    ));
                }
            },
            SpecValue::Vector(c) => {
                lemma_vector_bytes(before, c, before);
                if k >= 5 {
                    lemma_cut_vector(before, c, k);
                    assert(decoding(s, pos) == Err::<(SpecValue, int), Seq<char>>(
                        "truncated vec data"@,
                    ));
                } else {
                    assert(decoding(s, pos) == Err::<(SpecValue, int), Seq<char>>(
                        "truncated vec dim"@,
                    ));
                }
            },
            SpecValue::Timestamp(t) => {
                lemma_i64_read_back(empty, t, empty);
                assert(decoding(s, pos) == Err::<(SpecValue, int), Seq<char>>(
                    "truncated timestamp"@,
                ));
            },
            SpecValue::GeoPoint(lat, lon) => {
                lemma_u64_read_back(empty, lat, empty);
                lemma_u64_read_back(empty, lon, empty);
                assert(decoding(s, pos) == Err::<(SpecValue, int), Seq<char>>(
                    "truncated geopoint"@,
                ));
            },
        }
    }
}

/// Where the encoding of a value stands in a buffer, decoding there takes
/// up exactly that encoding, if it gives a value at all.
proof fn lemma_value_length(before: Seq<u8>, v: SpecValue, after: Seq<u8>)
    requires
        fits(v),
    ensures
        decoding(before + encoding(v) + after, before.len() as int) matches Ok((_, n)) ==> n
            == encoding(v).len(),
{
    match v {
        SpecValue::Jsonb(doc) => {
            lemma_round_trip_sized(before, 6, encode_utf8(json_text(doc)), after);
        },
        _ => {
            lemma_value_round_trip(before, v, after);
        },
    }
}

/// Where the encodings of a run of values stand in a buffer, decoding as
/// many values ends right behind them, if it gives values at all.
proof fn lemma_run_length(before: Seq<u8>, vs: Seq<SpecValue>, after: Seq<u8>)
    requires
        forall|i: int| 0 <= i < vs.len() ==> fits(#[trigger] vs[i]),
    ensures
        decoding_run(before + encodings(vs) + after, before.len() as int, vs.len()) matches Ok(
            (_, end),
        ) ==> end == before.len() + encodings(vs).len(),
    decreases vs.len(),
{
    if vs.len() > 0 {
        let s = before + encodings(vs) + after;
        let init = vs.drop_last();
        let last = vs.last();
        lemma_run_length(before, init, encoding(last) + after);
        assert(s =~= before + encodings(init) + (encoding(last) + after));
        lemma_value_length(before + encodings(init), last, after);
        assert(s =~= (before + encodings(init)) + encoding(last) + after);
    }
}

/// A cut-off run is refused: where only the first `k` bytes of the
/// encodings of a run of values stand at the end of a buffer, and not all
/// of them, decoding as many values fails.
pub proof fn lemma_run_truncation_fails(before: Seq<u8>, vs: Seq<SpecValue>, k: int)
    requires
        forall|i: int| 0 <= i < vs.len() ==> fits(#[trigger] vs[i]),
        0 <= k < encodings(vs).len(),
    ensures
        decoding_run(before + encodings(vs).take(k), before.len() as int, vs.len()) is Err,
    decreases vs.len(),
{
    if vs.len() > 0 {
        let s = before + encodings(vs).take(k);
        let init = vs.drop_last();
        let last = vs.last();
        let whole = encodings(init).len() as int;
        if k < whole {
            assert(encodings(vs).take(k) =~= encodings(init).take(k));
            lemma_run_truncation_fails(before, init, k);
        } else {
            let cut = encoding(last).take(k - whole);
            assert(encodings(vs).take(k) =~= encodings(init) + cut);
            assert(s =~= before + encodings(init) + cut);
            lemma_run_length(before, init, cut);
            lemma_truncation_fails(before + encodings(init), last, k - whole);
            assert(s =~= (before + encodings(init)) + cut);
        }
    }
}

/// Where the encodings of the rows of a grid stand in a buffer, decoding as
/// many rows ends right behind them, if it gives rows at all.
proof fn lemma_rows_length(before: Seq<u8>, rows: Seq<Seq<SpecValue>>, cols: nat, after: Seq<u8>)
    requires
        forall|i: int| 0 <= i < rows.len() ==> (#[trigger] rows[i]).len() == cols,
        forall|i: int, j: int|
            0 <= i < rows.len() && 0 <= j < rows[i].len() ==> fits(#[trigger] rows[i][j]),
    ensures
        decoding_rows(before + rows_encoding(rows) + after, before.len() as int, rows.len(), cols)
            matches Ok((_, end)) ==> end == before.len() + rows_encoding(rows).len(),
    decreases rows.len(),
{
    if rows.len() > 0 {
        let s = before + rows_encoding(rows) + after;
        let init = rows.drop_last();
        let last = rows.last();
        assert forall|i: int, j: int|
            0 <= i < init.len() && 0 <= j < init[i].len() implies fits(#[trigger] init[i][j]) by {
            assert(init[i] == rows[i]);
        }
        lemma_rows_length(before, init, cols, encodings(last) + after);
        assert(s =~= before + rows_encoding(init) + (encodings(last) + after));
        assert forall|j: int| 0 <= j < last.len() implies fits(#[trigger] last[j]) by {
            assert(last[j] == rows[rows.len() - 1][j]);
        }
        lemma_run_length(before + rows_encoding(init), last, after);
        assert(s =~= (before + rows_encoding(init)) + encodings(last) + after);
    }
}

/// Cut-off rows are refused.
proof fn lemma_rows_truncation_fails(
    before: Seq<u8>,
    rows: Seq<Seq<SpecValue>>,
    cols: nat,
    k: int,
)
    requires
        forall|i: int| 0 <= i < rows.len() ==> (#[trigger] rows[i]).len() == cols,
        forall|i: int, j: int|
            0 <= i < rows.len() && 0 <= j < rows[i].len() ==> fits(#[trigger] rows[i][j]),
        0 <= k < rows_encoding(rows).len(),
    ensures
        decoding_rows(before + rows_encoding(rows).take(k), before.len() as int, rows.len(), cols)
            is Err,
    decreases rows.len(),
{
    if rows.len() > 0 {
        let s = before + rows_encoding(rows).take(k);
        let init = rows.drop_last();
        let last = rows.last();
        let whole = rows_encoding(init).len() as int;
        assert forall|i: int, j: int|
            0 <= i < init.len() && 0 <= j < init[i].len() implies fits(#[trigger] init[i][j]) by {
            assert(init[i] == rows[i]);
        }
        if k < whole {
            assert(rows_encoding(rows).take(k) =~= rows_encoding(init).take(k));
            lemma_rows_truncation_fails(before, init, cols, k);
        } else {
            let cut = encodings(last).take(k - whole);
            assert(rows_encoding(rows).take(k) =~= rows_encoding(init) + cut);
            assert(s =~= before + rows_encoding(init) + cut);
            lemma_rows_length(before, init, cols, cut);
            assert forall|j: int| 0 <= j < last.len() implies fits(#[trigger] last[j]) by {
                assert(last[j] == rows[rows.len() - 1][j]);
            }
            lemma_run_truncation_fails(before + rows_encoding(init), last, k - whole);
            assert(s =~= (before + rows_encoding(init)) + cut);
        }
    }
}

/// A cut-off row set is refused: of the encoding of a grid, any part from
/// the first byte on that is not empty and not the whole fails to decode.
/// (Nothing at all is the empty row set.)
pub proof fn theorem_row_set_truncation_fails(rows: Seq<Seq<SpecValue>>, k: int)
    requires
        is_grid(rows),
        rows.len() <= u32::MAX,
        width(rows) <= u32::MAX,
        forall|i: int, j: int|
            0 <= i < rows.len() && 0 <= j < rows[i].len() ==> fits(#[trigger] rows[i][j]),
        0 < k < grid_encoding(rows).len(),
    ensures
        row_set(grid_encoding(rows).take(k)) is Err,
{
    let data = grid_encoding(rows).take(k);
    assert(data.len() == k);
    if k >= 8 {
        lemma_cut_grid(rows, k);
    }
}

/// A row set that is cut off behind its header still tells its counts.
proof fn lemma_cut_grid_header(rows: Seq<Seq<SpecValue>>, k: int)
    requires
        rows.len() <= u32::MAX,
        width(rows) <= u32::MAX,
        8 <= k < grid_encoding(rows).len(),
    ensures
        ({
            let header = le_u32(count_field(rows.len())) + le_u32(count_field(width(rows)));
            let data = grid_encoding(rows).take(k);
            &&& header.len() == 8
            &&& data == header + rows_encoding(rows).take(k - 8)
            &&& u32_at(data, 0) == rows.len()
            &&& u32_at(data, 4) == width(rows)
            &&& k - 8 < rows_encoding(rows).len()
        }),
{
    let r = count_field(rows.len());
    let c = count_field(width(rows));
    let body = rows_encoding(rows);
    let header = le_u32(r) + le_u32(c);
    let cut = body.take(k - 8);
    lemma_header_read_back(r, c, cut);
    assert(grid_encoding(rows) =~= header + body);
    assert(grid_encoding(rows).take(k) =~= header + cut);
}

/// The rows of a row set that is cut off behind its header fail to
/// decode.
proof fn lemma_cut_grid(rows: Seq<Seq<SpecValue>>, k: int)
    requires
        is_grid(rows),
        rows.len() <= u32::MAX,
        width(rows) <= u32::MAX,
        forall|i: int, j: int|
            0 <= i < rows.len() && 0 <= j < rows[i].len() ==> fits(#[trigger] rows[i][j]),
        8 <= k < grid_encoding(rows).len(),
    ensures
        decoding_rows(
            grid_encoding(rows).take(k),
            8,
            u32_at(grid_encoding(rows).take(k), 0) as nat,
            u32_at(grid_encoding(rows).take(k), 4) as nat,
        ) is Err,
{
    let header = le_u32(count_field(rows.len())) + le_u32(count_field(width(rows)));
    lemma_cut_grid_header(rows, k);
    lemma_rows_truncation_fails(header, rows, width(rows), k - 8);
}

/// A cut-off hit list is refused: of the encoding of a hit list, any part
/// from the first byte on that is not the whole fails to decode.
pub proof fn theorem_hit_list_truncation_fails(hits: Seq<(u64, u32)>, k: int)
    requires
        hits.len() <= u32::MAX,
        0 <= k < hits_encoding(hits).len(),
    ensures
        hit_list(hits_encoding(hits).take(k)) is Err,
{
    let n = count_field(hits.len());
    let empty = Seq::<u8>::empty();
    lemma_hits_bytes(le_u32(n), hits, empty);
    if k >= 4 {
        let cut = hits_bytes(hits).take(k - 4);
        assert(hits_encoding(hits).take(k) =~= empty + le_u32(n) + cut);
        lemma_u32_read_back(empty, n, cut);
    }
}

/// Nothing at all decodes to the empty row set.
pub proof fn lemma_empty_buffer_is_empty_row_set()
    ensures
        row_set(Seq::<u8>::empty()) == Ok::<Seq<Seq<SpecValue>>, Seq<char>>(Seq::empty()),
{
}

} // verus!

use talon_sys::{
    decode_rows_bin, decode_value, decode_vector_bin, encode_params, encode_rows_bin, encode_value,
    encode_vector_bin, Json, Value,
};

fn encoded(v: &Value) -> Vec<u8> {
    let mut buf = Vec::new();
    encode_value(&mut buf, v);
    buf
}

fn round_trip(v: Value) {
    let buf = encoded(&v);
    let (back, used) = decode_value(&buf, 0).unwrap();
    assert_eq!(back, v);
    assert_eq!(used, buf.len());
}

fn samples() -> Vec<Value> {
    vec![
        Value::Null,
        Value::Integer(0),
        Value::Integer(-1),
        Value::Integer(i64::MIN),
        Value::Integer(i64::MAX),
        Value::Float(1.5f64.to_bits()),
        Value::Float(f64::NAN.to_bits()),
        Value::Float(f64::INFINITY.to_bits()),
        Value::Float(f64::NEG_INFINITY.to_bits()),
        Value::Float((-0.0f64).to_bits()),
        Value::Text(String::new()),
        Value::Text("héllo, wörld — 日本語 🦀".to_string()),
        Value::Blob(Vec::new()),
        Value::Blob(vec![0, 1, 2, 254, 255]),
        Value::Boolean(true),
        Value::Boolean(false),
        Value::Jsonb(Json::parse(r#"{"b":[1,2,{"c":null}],"a":"x","n":-7,"t":true}"#).unwrap()),
        Value::Jsonb(Json::parse("[]").unwrap()),
        Value::Vector(Vec::new()),
        Value::Vector(vec![1.0f32.to_bits(), (-2.5f32).to_bits(), f32::NAN.to_bits()]),
        Value::Timestamp(1_700_000_000_000),
        Value::Timestamp(-5),
        Value::GeoPoint(90.0f64.to_bits(), (-180.0f64).to_bits()),
        Value::GeoPoint((-90.0f64).to_bits(), 180.0f64.to_bits()),
    ]
}

#[test]
fn every_variant_round_trips() {
    for v in samples() {
        round_trip(v);
    }
}

#[test]
fn default_value_is_null() {
    assert_eq!(Value::default(), Value::Null);
}

#[test]
fn null_is_one_zero_byte() {
    assert_eq!(encoded(&Value::Null), vec![0]);
}

#[test]
fn integer_is_little_endian_twos_complement() {
    assert_eq!(encoded(&Value::Integer(1)), vec![1, 1, 0, 0, 0, 0, 0, 0, 0]);
    assert_eq!(
        encoded(&Value::Integer(-2)),
        vec![1, 0xfe, 0xff, 0xff, 0xff, 0xff, 0xff, 0xff, 0xff]
    );
    assert_eq!(
        encoded(&Value::Integer(0x0102_0304_0506_0708)),
        vec![1, 8, 7, 6, 5, 4, 3, 2, 1]
    );
    assert_eq!(encoded(&Value::Integer(i64::MIN)), vec![1, 0, 0, 0, 0, 0, 0, 0, 0x80]);
}

#[test]
fn float_is_its_bits() {
    let mut expected = vec![2u8];
    expected.extend_from_slice(&1.5f64.to_le_bytes());
    assert_eq!(encoded(&Value::Float(1.5f64.to_bits())), expected);
    assert_eq!(expected, vec![2, 0, 0, 0, 0, 0, 0, 0xf8, 0x3f]);
}

#[test]
fn text_has_length_then_utf8() {
    assert_eq!(
        encoded(&Value::Text("hé".to_string())),
        vec![3, 3, 0, 0, 0, b'h', 0xc3, 0xa9]
    );
    assert_eq!(encoded(&Value::Text(String::new())), vec![3, 0, 0, 0, 0]);
}

#[test]
fn blob_has_length_then_bytes() {
    assert_eq!(encoded(&Value::Blob(vec![9, 8, 7])), vec![4, 3, 0, 0, 0, 9, 8, 7]);
}

#[test]
fn long_blob_length_spans_bytes() {
    let blob = vec![7u8; 0x0102];
    let buf = encoded(&Value::Blob(blob.clone()));
    assert_eq!(&buf[..5], &[4, 0x02, 0x01, 0, 0]);
    assert_eq!(&buf[5..], &blob[..]);
}

#[test]
fn boolean_is_one_byte() {
    assert_eq!(encoded(&Value::Boolean(true)), vec![5, 1]);
    assert_eq!(encoded(&Value::Boolean(false)), vec![5, 0]);
}

#[test]
fn any_nonzero_byte_decodes_as_true() {
    assert_eq!(decode_value(&[5, 7], 0).unwrap(), (Value::Boolean(true), 2));
    assert_eq!(decode_value(&[5, 0], 0).unwrap(), (Value::Boolean(false), 2));
}

#[test]
fn jsonb_is_compact_text() {
    let doc = Json::parse(r#" { "b" : [1, 2] , "a" : "x" } "#).unwrap();
    let text = br#"{"a":"x","b":[1,2]}"#;
    let mut expected = vec![6u8, text.len() as u8, 0, 0, 0];
    expected.extend_from_slice(text);
    assert_eq!(encoded(&Value::Jsonb(doc)), expected);
}

#[test]
fn vector_has_dimension_then_components() {
    let v = Value::Vector(vec![1.0f32.to_bits(), (-2.5f32).to_bits()]);
    let mut expected = vec![7u8, 2, 0, 0, 0];
    expected.extend_from_slice(&1.0f32.to_le_bytes());
    expected.extend_from_slice(&(-2.5f32).to_le_bytes());
    assert_eq!(encoded(&v), expected);
    assert_eq!(expected, vec![7, 2, 0, 0, 0, 0, 0, 0x80, 0x3f, 0, 0, 0x20, 0xc0]);
}

#[test]
fn timestamp_is_like_integer_with_its_own_tag() {
    assert_eq!(encoded(&Value::Timestamp(258)), vec![8, 2, 1, 0, 0, 0, 0, 0, 0]);
}

#[test]
fn geo_point_is_two_floats() {
    let v = Value::GeoPoint(1.5f64.to_bits(), (-2.0f64).to_bits());
    let mut expected = vec![9u8];
    expected.extend_from_slice(&1.5f64.to_le_bytes());
    expected.extend_from_slice(&(-2.0f64).to_le_bytes());
    assert_eq!(encoded(&v), expected);
    assert_eq!(expected.len(), 17);
}

#[test]
fn encode_appends_to_what_is_there() {
    let mut buf = vec![42u8];
    encode_value(&mut buf, &Value::Boolean(true));
    assert_eq!(buf, vec![42, 5, 1]);
}

#[test]
fn decode_starts_at_the_position_given() {
    let buf = vec![42u8, 42, 1, 5, 0, 0, 0, 0, 0, 0, 0, 42];
    assert_eq!(decode_value(&buf, 2).unwrap(), (Value::Integer(5), 9));
}

#[test]
fn consumed_counts_tag_and_payload() {
    assert_eq!(decode_value(&encoded(&Value::Null), 0).unwrap().1, 1);
    assert_eq!(decode_value(&encoded(&Value::Integer(3)), 0).unwrap().1, 9);
    assert_eq!(decode_value(&encoded(&Value::Text("abc".into())), 0).unwrap().1, 8);
    assert_eq!(decode_value(&encoded(&Value::Vector(vec![0, 0, 0])), 0).unwrap().1, 17);
    assert_eq!(decode_value(&encoded(&Value::GeoPoint(0, 0)), 0).unwrap().1, 17);
}

#[test]
fn params_have_count_then_values() {
    let params = vec![Value::Integer(1), Value::Null, Value::Boolean(true)];
    assert_eq!(
        encode_params(&params),
        vec![3, 0, 0, 0, 1, 1, 0, 0, 0, 0, 0, 0, 0, 0, 5, 1]
    );
    assert_eq!(encode_params(&[]), vec![0, 0, 0, 0]);
}

#[test]
fn params_can_be_walked_by_consumed_lengths() {
    let params = samples();
    let buf = encode_params(&params);
    assert_eq!(&buf[..4], &(params.len() as u32).to_le_bytes());
    let mut pos = 4;
    for p in &params {
        let (v, used) = decode_value(&buf, pos).unwrap();
        assert_eq!(&v, p);
        pos += used;
    }
    assert_eq!(pos, buf.len());
}

#[test]
fn truncated_at_every_offset_fails_with_a_description() {
    for v in samples() {
        let buf = encoded(&v);
        for cut in 0..buf.len() {
            let err = decode_value(&buf[..cut], 0).unwrap_err();
            assert!(!err.0.is_empty());
        }
    }
}

#[test]
fn truncation_names_the_field() {
    let msg = |bytes: &[u8]| decode_value(bytes, 0).unwrap_err().0;
    assert_eq!(msg(&[]), "unexpected end of binary data");
    assert_eq!(msg(&[1, 0, 0]), "truncated i64");
    assert_eq!(msg(&[2, 0, 0, 0, 0, 0, 0, 0]), "truncated f64");
    assert_eq!(msg(&[3, 1, 0]), "truncated text len");
    assert_eq!(msg(&[3, 2, 0, 0, 0, b'a']), "truncated text data");
    assert_eq!(msg(&[4]), "truncated blob len");
    assert_eq!(msg(&[4, 1, 0, 0, 0]), "truncated blob data");
    assert_eq!(msg(&[5]), "truncated bool");
    assert_eq!(msg(&[6, 0, 0, 0]), "truncated jsonb len");
    assert_eq!(msg(&[6, 5, 0, 0, 0, b'n', b'u', b'l', b'l']), "truncated jsonb data");
    assert_eq!(msg(&[7, 1]), "truncated vec dim");
    assert_eq!(msg(&[7, 2, 0, 0, 0, 0, 0, 0, 0]), "truncated vec data");
    assert_eq!(msg(&[8, 1, 2, 3, 4, 5, 6, 7]), "truncated timestamp");
    assert_eq!(msg(&[9, 0, 0, 0, 0, 0, 0, 0, 0, 0, 0, 0, 0, 0, 0, 0]), "truncated geopoint");
}

#[test]
fn position_past_the_end_fails() {
    let err = decode_value(&[0], 1).unwrap_err();
    assert_eq!(err.0, "unexpected end of binary data");
    let err = decode_value(&[0], usize::MAX).unwrap_err();
    assert_eq!(err.0, "unexpected end of binary data");
}

#[test]
fn huge_declared_length_fails() {
    let err = decode_value(&[4, 0xff, 0xff, 0xff, 0xff, 1, 2, 3], 0).unwrap_err();
    assert_eq!(err.0, "truncated blob data");
    let err = decode_value(&[7, 0xff, 0xff, 0xff, 0xff, 1, 2, 3, 4], 0).unwrap_err();
    assert_eq!(err.0, "truncated vec data");
    let err = decode_value(&[7, 0x00, 0x00, 0x00, 0x40, 1, 2, 3, 4], 0).unwrap_err();
    assert_eq!(err.0, "truncated vec data");
}

#[test]
fn unknown_tag_fails() {
    let err = decode_value(&[10], 0).unwrap_err();
    assert_eq!(err.0, "unknown binary type tag: 10");
    let err = decode_value(&[255, 0, 0], 0).unwrap_err();
    assert_eq!(err.0, "unknown binary type tag: 255");
    for tag in 10..=255u8 {
        let err = decode_value(&[tag, 0, 0, 0, 0, 0, 0, 0, 0], 0).unwrap_err();
        assert!(err.0.starts_with("unknown binary type tag: "));
        assert!(err.0.ends_with(&tag.to_string()));
    }
}

#[test]
fn invalid_utf8_fails() {
    let err = decode_value(&[3, 2, 0, 0, 0, 0xff, 0xfe], 0).unwrap_err();
    assert_eq!(err.0, "invalid utf8 in text");
    let err = decode_value(&[6, 1, 0, 0, 0, 0x80], 0).unwrap_err();
    assert_eq!(err.0, "invalid utf8 in jsonb");
    let err = decode_value(&[3, 2, 0, 0, 0, 0xc3], 0).unwrap_err();
    assert_eq!(err.0, "truncated text data");
    let err = decode_value(&[3, 1, 0, 0, 0, 0xc3], 0).unwrap_err();
    assert_eq!(err.0, "invalid utf8 in text");
}

#[test]
fn invalid_json_fails() {
    let err = decode_value(&[6, 3, 0, 0, 0, b'{', b'a', b'}'], 0).unwrap_err();
    assert!(err.0.starts_with("jsonb parse: "));
    assert!(err.0.len() > "jsonb parse: ".len());
    assert!(err.0.contains("line 1 column 2"));
    let err = decode_value(&[6, 0, 0, 0, 0], 0).unwrap_err();
    assert!(err.0.starts_with("jsonb parse: "));
}

fn grid_3x4() -> Vec<Vec<Value>> {
    vec![
        vec![
            Value::Integer(1),
            Value::Text("one".into()),
            Value::Null,
            Value::Vector(vec![0.5f32.to_bits()]),
        ],
        vec![
            Value::Integer(2),
            Value::Text("".into()),
            Value::Float(2.25f64.to_bits()),
            Value::Vector(vec![]),
        ],
        vec![
            Value::Integer(-3),
            Value::Blob(vec![1, 2, 3]),
            Value::Jsonb(Json::parse(r#"{"k":[true,null]}"#).unwrap()),
            Value::GeoPoint(48.85f64.to_bits(), 2.35f64.to_bits()),
        ],
    ]
}

#[test]
fn row_sets_round_trip() {
    let empty: Vec<Vec<Value>> = Vec::new();
    let buf = encode_rows_bin(&empty).unwrap();
    assert_eq!(buf, vec![0, 0, 0, 0, 0, 0, 0, 0]);
    assert_eq!(decode_rows_bin(&buf).unwrap(), empty);

    let one = vec![vec![Value::Boolean(true)]];
    let buf = encode_rows_bin(&one).unwrap();
    assert_eq!(buf, vec![1, 0, 0, 0, 1, 0, 0, 0, 5, 1]);
    assert_eq!(decode_rows_bin(&buf).unwrap(), one);

    let grid = grid_3x4();
    let buf = encode_rows_bin(&grid).unwrap();
    assert_eq!(&buf[..8], &[3, 0, 0, 0, 4, 0, 0, 0]);
    assert_eq!(decode_rows_bin(&buf).unwrap(), grid);
}

#[test]
fn empty_buffer_is_the_empty_row_set() {
    assert_eq!(decode_rows_bin(&[]).unwrap(), Vec::<Vec<Value>>::new());
}

#[test]
fn rows_without_columns_are_empty_rows() {
    let rows = decode_rows_bin(&[2, 0, 0, 0, 0, 0, 0, 0]).unwrap();
    assert_eq!(rows, vec![Vec::<Value>::new(), Vec::new()]);
}

#[test]
fn no_rows_with_columns_is_empty() {
    let rows = decode_rows_bin(&[0, 0, 0, 0, 4, 0, 0, 0]).unwrap();
    assert!(rows.is_empty());
}

#[test]
fn short_row_header_fails() {
    for len in 1..8 {
        let err = decode_rows_bin(&vec![0u8; len]).unwrap_err();
        assert_eq!(err.0, "binary result too short");
    }
}

#[test]
fn truncated_row_set_fails() {
    let buf = encode_rows_bin(&grid_3x4()).unwrap();
    for cut in 1..buf.len() {
        assert!(decode_rows_bin(&buf[..cut]).is_err());
    }
}

#[test]
fn row_set_reports_the_cell_at_fault() {
    let err = decode_rows_bin(&[1, 0, 0, 0, 2, 0, 0, 0, 0, 11]).unwrap_err();
    assert_eq!(err.0, "unknown binary type tag: 11");
    let err = decode_rows_bin(&[1, 0, 0, 0, 2, 0, 0, 0, 0]).unwrap_err();
    assert_eq!(err.0, "unexpected end of binary data");
}

#[test]
fn ragged_rows_cannot_be_encoded() {
    let rows = vec![vec![Value::Null], vec![Value::Null, Value::Null]];
    let err = encode_rows_bin(&rows).unwrap_err();
    assert_eq!(err.0, "rows differ in length");
}

#[test]
fn hit_list_round_trips_in_order() {
    let hits = vec![(7u64, 0.125f32.to_bits()), (3u64, 9.5f32.to_bits())];
    let buf = encode_vector_bin(&hits);
    let mut expected = vec![2u8, 0, 0, 0];
    expected.extend_from_slice(&7u64.to_le_bytes());
    expected.extend_from_slice(&0.125f32.to_le_bytes());
    expected.extend_from_slice(&3u64.to_le_bytes());
    expected.extend_from_slice(&9.5f32.to_le_bytes());
    assert_eq!(buf, expected);
    let back = decode_vector_bin(&buf).unwrap();
    assert_eq!(back, hits);
    assert_eq!(f32::from_bits(back[0].1), 0.125);
    assert_eq!(f32::from_bits(back[1].1), 9.5);
}

#[test]
fn empty_hit_list_round_trips() {
    let buf = encode_vector_bin(&[]);
    assert_eq!(buf, vec![0, 0, 0, 0]);
    assert!(decode_vector_bin(&buf).unwrap().is_empty());
}

#[test]
fn hit_list_failures() {
    assert_eq!(decode_vector_bin(&[]).unwrap_err().0, "vector binary result too short");
    assert_eq!(decode_vector_bin(&[1, 0, 0]).unwrap_err().0, "vector binary result too short");
    assert_eq!(
        decode_vector_bin(&[1, 0, 0, 0, 1, 2, 3]).unwrap_err().0,
        "vector binary result truncated"
    );
    assert_eq!(
        decode_vector_bin(&[0xff, 0xff, 0xff, 0xff]).unwrap_err().0,
        "vector binary result truncated"
    );
    let buf = encode_vector_bin(&[(1, 2), (3, 4)]);
    for cut in 0..buf.len() {
        assert!(decode_vector_bin(&buf[..cut]).is_err());
    }
}

#[test]
fn hit_list_ignores_what_follows() {
    let mut buf = encode_vector_bin(&[(1, 2)]);
    buf.push(99);
    assert_eq!(decode_vector_bin(&buf).unwrap(), vec![(1, 2)]);
}

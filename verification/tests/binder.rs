use talon_sys::{bind_params, sql_literal, Json, Value};

fn lit(v: Value) -> String {
    sql_literal(&v, &[])
}

fn lit_with(v: Value, decimals: &[&str]) -> String {
    let decimals: Vec<String> = decimals.iter().map(|s| s.to_string()).collect();
    sql_literal(&v, &decimals)
}

fn bind(sql: &str, params: &[Value]) -> String {
    bind_params(sql, params, &[])
}

#[test]
fn quoted_text_is_left_alone_and_placeholder_is_replaced() {
    let sql = "SELECT * FROM t WHERE name = ? AND note = 'literal ?? not a param'''";
    let out = bind(sql, &[Value::Text("it's".to_string())]);
    assert_eq!(
        out,
        "SELECT * FROM t WHERE name = 'it''s' AND note = 'literal ?? not a param'''"
    );
}

#[test]
fn null_literal() {
    assert_eq!(lit(Value::Null), "NULL");
}

#[test]
fn integer_and_timestamp_literals() {
    assert_eq!(lit(Value::Integer(0)), "0");
    assert_eq!(lit(Value::Integer(7)), "7");
    assert_eq!(lit(Value::Integer(-42)), "-42");
    assert_eq!(lit(Value::Integer(1234567890)), "1234567890");
    assert_eq!(lit(Value::Integer(i64::MAX)), "9223372036854775807");
    assert_eq!(lit(Value::Integer(i64::MIN)), "-9223372036854775808");
    assert_eq!(lit(Value::Timestamp(1_700_000_000)), "1700000000");
    assert_eq!(lit(Value::Timestamp(-1)), "-1");
}

#[test]
fn float_literals() {
    let f = |x: f64| lit_with(Value::Float(x.to_bits()), &[&x.to_string()]);
    assert_eq!(f(1.5), "1.5");
    assert_eq!(f(-0.25), "-0.25");
    assert_eq!(f(3.0), "3");
    assert_eq!(f(1e21), "1000000000000000000000");
    assert_eq!(f(f64::NAN), "NULL");
    assert_eq!(f(f64::INFINITY), "NULL");
    assert_eq!(f(f64::NEG_INFINITY), "NULL");
    assert_eq!(f(f64::MAX), f64::MAX.to_string());
    assert_eq!(f(f64::MIN_POSITIVE), f64::MIN_POSITIVE.to_string());
}

#[test]
fn float_without_a_number_text_is_null() {
    assert_eq!(lit(Value::Float(1.5f64.to_bits())), "NULL");
    assert_eq!(lit_with(Value::Float(1.5f64.to_bits()), &[""]), "NULL");
    assert_eq!(lit_with(Value::Float(1.5f64.to_bits()), &["1; DROP TABLE t"]), "NULL");
    assert_eq!(lit_with(Value::Float(1.5f64.to_bits()), &["1'"]), "NULL");
    assert_eq!(lit_with(Value::Float(1.5f64.to_bits()), &["1.5e-3"]), "1.5e-3");
}

#[test]
fn text_literals_double_quotes() {
    assert_eq!(lit(Value::Text(String::new())), "''");
    assert_eq!(lit(Value::Text("abc".into())), "'abc'");
    assert_eq!(lit(Value::Text("it's".into())), "'it''s'");
    assert_eq!(lit(Value::Text("'".into())), "''''");
    assert_eq!(lit(Value::Text("''".into())), "''''''");
    assert_eq!(lit(Value::Text("a?b".into())), "'a?b'");
    assert_eq!(lit(Value::Text("日本'語".into())), "'日本''語'");
}

#[test]
fn boolean_literals() {
    assert_eq!(lit(Value::Boolean(true)), "1");
    assert_eq!(lit(Value::Boolean(false)), "0");
}

#[test]
fn blob_literals() {
    assert_eq!(lit(Value::Blob(vec![])), "X''");
    assert_eq!(lit(Value::Blob(vec![0xde, 0xad, 0x00, 0x0f, 0xf0])), "X'dead000ff0'");
    assert_eq!(lit(Value::Blob(vec![0x09, 0x9a, 0xa9])), "X'099aa9'");
}

#[test]
fn json_literals() {
    let doc = Json::parse(r#"{"k": "it's", "n": [1, 2]}"#).unwrap();
    assert_eq!(lit(Value::Jsonb(doc)), r#"'{"k":"it''s","n":[1,2]}'"#);
}

#[test]
fn vector_literals() {
    let v = Value::Vector(vec![1.0f32.to_bits(), 2.5f32.to_bits(), (-3.0f32).to_bits()]);
    assert_eq!(lit_with(v, &["1", "2.5", "-3"]), "'[1,2.5,-3]'");
    assert_eq!(lit(Value::Vector(vec![])), "'[]'");
    let v = Value::Vector(vec![1.0f32.to_bits(), f32::NAN.to_bits()]);
    assert_eq!(lit_with(v, &["1", "NaN"]), "'[1,NULL]'");
    let v = Value::Vector(vec![1.0f32.to_bits(), 2.0f32.to_bits()]);
    assert_eq!(lit_with(v, &["1"]), "'[1,NULL]'");
}

#[test]
fn geo_point_literals() {
    let v = Value::GeoPoint(48.5f64.to_bits(), (-2.25f64).to_bits());
    assert_eq!(lit_with(v, &["48.5", "-2.25"]), "POINT(48.5,-2.25)");
    let v = Value::GeoPoint(90.0f64.to_bits(), (-180.0f64).to_bits());
    assert_eq!(lit_with(v, &["90", "-180"]), "POINT(90,-180)");
    let v = Value::GeoPoint(f64::NAN.to_bits(), 1.0f64.to_bits());
    assert_eq!(lit_with(v, &["NaN", "1"]), "POINT(NULL,1)");
}

#[test]
fn placeholders_take_parameters_in_order() {
    let out = bind(
        "INSERT INTO t VALUES (?, ?, ?)",
        &[Value::Integer(1), Value::Text("b".into()), Value::Null],
    );
    assert_eq!(out, "INSERT INTO t VALUES (1, 'b', NULL)");
}

#[test]
fn template_without_placeholders_is_unchanged() {
    let sql = "SELECT 'a?' || '''?''' FROM t";
    assert_eq!(bind(sql, &[Value::Integer(1)]), sql);
    assert_eq!(bind("", &[Value::Integer(1)]), "");
}

#[test]
fn no_parameters_leave_the_template_unchanged() {
    let sql = "SELECT ? FROM t WHERE a = '?' AND b = ?";
    assert_eq!(bind(sql, &[]), sql);
}

#[test]
fn placeholder_without_parameter_stays() {
    assert_eq!(bind("? ? ?", &[Value::Integer(1)]), "1 ? ?");
}

#[test]
fn parameters_left_over_are_not_used() {
    assert_eq!(bind("a = ?", &[Value::Integer(1), Value::Integer(2)]), "a = 1");
}

#[test]
fn doubled_quote_does_not_end_a_literal() {
    let out = bind("SELECT 'it''s ?', ?", &[Value::Integer(5)]);
    assert_eq!(out, "SELECT 'it''s ?', 5");
    let out = bind("SELECT '''?', ?", &[Value::Integer(5)]);
    assert_eq!(out, "SELECT '''?', 5");
    let out = bind("SELECT '', ?", &[Value::Integer(5)]);
    assert_eq!(out, "SELECT '', 5");
}

#[test]
fn unterminated_literal_is_copied() {
    let out = bind("SELECT ? , 'open ? quote", &[Value::Integer(5), Value::Integer(6)]);
    assert_eq!(out, "SELECT 5 , 'open ? quote");
    let out = bind("'", &[Value::Integer(5)]);
    assert_eq!(out, "'");
}

#[test]
fn bound_text_cannot_break_out() {
    let evil = Value::Text("x'; DROP TABLE t; --".into());
    let out = bind("SELECT * FROM t WHERE a = ? AND b = ?", &[evil, Value::Integer(2)]);
    assert_eq!(out, "SELECT * FROM t WHERE a = 'x''; DROP TABLE t; --' AND b = 2");
}

#[test]
fn bound_text_with_question_mark_is_not_bound_again() {
    let out = bind("a = ? AND b = ?", &[Value::Text("?".into()), Value::Integer(2)]);
    assert_eq!(out, "a = '?' AND b = 2");
    assert_eq!(bind(&out, &[Value::Integer(9)]), out);
}

#[test]
fn floats_are_bound_with_their_texts() {
    let params = vec![
        Value::Float(1.5f64.to_bits()),
        Value::Integer(3),
        Value::GeoPoint(1.0f64.to_bits(), 2.0f64.to_bits()),
    ];
    let decimals = vec![
        vec!["1.5".to_string()],
        vec![],
        vec!["1".to_string(), "2".to_string()],
    ];
    let out = bind_params("f(?, ?, ?)", &params, &decimals);
    assert_eq!(out, "f(1.5, 3, POINT(1,2))");
}

#[test]
fn multibyte_template_is_copied() {
    let out = bind("SELECT 'é?' , ? -- été", &[Value::Text("ü".into())]);
    assert_eq!(out, "SELECT 'é?' , 'ü' -- été");
}

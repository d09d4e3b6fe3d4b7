use talon_sys::boundary::{c_string, check_status};
use talon_sys::fts::hybrid::HybridQuery;
use talon_sys::{
    hybrid_search, BoundaryCall, FtsConfig, FtsDoc, FtsEngine, JsonNumber, KvEngine, Talon,
    TalonHandle, Value, VectorEngine,
};

fn open_db() -> Talon {
    Talon::opened("/tmp/db", TalonHandle { token: 77 }).unwrap()
}

fn command_text(call: BoundaryCall) -> String {
    match call {
        BoundaryCall::Execute { handle, command } => {
            assert_eq!(handle, TalonHandle { token: 77 });
            String::from_utf8(command).unwrap()
        }
        other => panic!("not a command: {:?}", other),
    }
}

#[test]
fn c_string_is_the_bytes_of_the_text() {
    assert_eq!(c_string("abc").unwrap(), b"abc".to_vec());
    assert_eq!(c_string("").unwrap(), Vec::<u8>::new());
    assert_eq!(c_string("é").unwrap(), vec![0xc3, 0xa9]);
}

#[test]
fn c_string_refuses_a_zero_byte() {
    let err = c_string("ab\0cd\0").unwrap_err();
    assert_eq!(
        err.0,
        "NUL byte in string: nul byte found in provided data at position: 2"
    );
    let err = c_string("\0").unwrap_err();
    assert_eq!(
        err.0,
        "NUL byte in string: nul byte found in provided data at position: 0"
    );
    let err = c_string("é\0").unwrap_err();
    assert_eq!(
        err.0,
        "NUL byte in string: nul byte found in provided data at position: 2"
    );
}

#[test]
fn status_zero_is_success() {
    assert!(check_status(0, "failed").is_ok());
    assert_eq!(check_status(1, "failed").unwrap_err().0, "failed");
    assert_eq!(check_status(-1, "failed").unwrap_err().0, "failed");
    assert_eq!(check_status(i32::MIN, "failed").unwrap_err().0, "failed");
}

#[test]
fn open_makes_the_path_ready() {
    match Talon::open("/tmp/db").unwrap() {
        BoundaryCall::Open { path } => assert_eq!(path, b"/tmp/db".to_vec()),
        other => panic!("{:?}", other),
    }
    assert!(Talon::open("a\0b").unwrap_err().0.starts_with("NUL byte in string: "));
}

#[test]
fn open_path_wants_utf8() {
    match Talon::open_path(b"/tmp/db").unwrap() {
        BoundaryCall::Open { path } => assert_eq!(path, b"/tmp/db".to_vec()),
        other => panic!("{:?}", other),
    }
    assert_eq!(Talon::open_path(&[b'/', 0xff]).unwrap_err().0, "Invalid UTF-8 path");
    assert!(Talon::open_path(b"a\0").unwrap_err().0.starts_with("NUL byte in string: "));
}

#[test]
fn null_handle_means_open_failed() {
    let err = Talon::opened("/tmp/db", TalonHandle::null()).unwrap_err();
    assert_eq!(err.0, "Failed to open: /tmp/db");
    assert!(Talon::opened("/tmp/db", TalonHandle { token: 1 }).is_ok());
}

#[test]
fn release_closes_once() {
    let mut db = open_db();
    match db.release() {
        Some(BoundaryCall::Close { handle }) => assert_eq!(handle.token, 77),
        other => panic!("{:?}", other),
    }
    assert!(db.release().is_none());
    assert!(db.release().is_none());
}

#[test]
fn run_sql_call() {
    let db = open_db();
    match db.run_sql("SELECT 1").unwrap() {
        BoundaryCall::RunSql { handle, sql } => {
            assert_eq!(handle.token, 77);
            assert_eq!(sql, b"SELECT 1".to_vec());
        }
        other => panic!("{:?}", other),
    }
    assert!(db.run_sql("SELECT \0").is_err());
}

#[test]
fn run_sql_param_call_carries_encoded_params() {
    let db = open_db();
    let params = vec![Value::Integer(5), Value::Boolean(false)];
    match db.run_sql_param("SELECT ?, ?", &params).unwrap() {
        BoundaryCall::RunSqlParam { handle, sql, params } => {
            assert_eq!(handle.token, 77);
            assert_eq!(sql, b"SELECT ?, ?".to_vec());
            assert_eq!(params, vec![2, 0, 0, 0, 1, 5, 0, 0, 0, 0, 0, 0, 0, 5, 0]);
        }
        other => panic!("{:?}", other),
    }
    assert!(db.run_sql_param("\0", &params).is_err());
}

#[test]
fn run_sql_reply_reads_rows() {
    let data = vec![1u8, 0, 0, 0, 2, 0, 0, 0, 0, 5, 1];
    let rows = Talon::run_sql_reply(0, Some(&data)).unwrap();
    assert_eq!(rows, vec![vec![Value::Null, Value::Boolean(true)]]);
    assert!(Talon::run_sql_reply(0, None).unwrap().is_empty());
    assert!(Talon::run_sql_reply(0, Some(&[])).unwrap().is_empty());
    assert_eq!(Talon::run_sql_reply(3, Some(&data)).unwrap_err().0, "run_sql FFI failed");
    assert_eq!(Talon::run_sql_reply(0, Some(&[1, 2])).unwrap_err().0, "binary result too short");
    assert_eq!(
        Talon::run_sql_param_reply(-1, None).unwrap_err().0,
        "run_sql_param FFI failed"
    );
    assert_eq!(Talon::run_sql_param_reply(0, Some(&data)).unwrap().len(), 1);
}

#[test]
fn engines_belong_to_the_database() {
    let db = open_db();
    let kv: KvEngine = db.kv().unwrap();
    match kv.get(b"k") {
        BoundaryCall::KvGet { handle, key } => {
            assert_eq!(handle.token, 77);
            assert_eq!(key, b"k".to_vec());
        }
        other => panic!("{:?}", other),
    }
    let _: KvEngine = db.kv_read().unwrap();
    let _: FtsEngine = db.fts().unwrap();
    let _: FtsEngine = db.fts_read().unwrap();
    let _: VectorEngine = db.vector("idx").unwrap();
    let _: VectorEngine = db.vector_read("idx").unwrap();
    assert!(db.ai().is_ok());
    assert!(db.ai_read().is_ok());
    let _ = db.store_ref();
}

#[test]
fn kv_calls() {
    let db = open_db();
    let kv = db.kv().unwrap();
    match kv.set(b"k", b"v", Some(60)) {
        BoundaryCall::KvSet { handle, key, value, ttl_secs } => {
            assert_eq!(handle.token, 77);
            assert_eq!(key, b"k".to_vec());
            assert_eq!(value, b"v".to_vec());
            assert_eq!(ttl_secs, 60);
        }
        other => panic!("{:?}", other),
    }
    match kv.set(b"k", b"v", None) {
        BoundaryCall::KvSet { ttl_secs, .. } => assert_eq!(ttl_secs, 0),
        other => panic!("{:?}", other),
    }
    match kv.set(b"k", b"v", Some(u64::MAX)) {
        BoundaryCall::KvSet { ttl_secs, .. } => assert_eq!(ttl_secs, -1),
        other => panic!("{:?}", other),
    }
    match kv.set(b"k", b"v", Some(1 << 63)) {
        BoundaryCall::KvSet { ttl_secs, .. } => assert_eq!(ttl_secs, i64::MIN),
        other => panic!("{:?}", other),
    }
    match kv.del(b"gone") {
        BoundaryCall::KvDel { key, .. } => assert_eq!(key, b"gone".to_vec()),
        other => panic!("{:?}", other),
    }
}

#[test]
fn kv_replies() {
    assert_eq!(KvEngine::get_reply(0, Some(b"v")).unwrap(), Some(b"v".to_vec()));
    assert_eq!(KvEngine::get_reply(0, Some(b"")).unwrap(), Some(Vec::new()));
    assert_eq!(KvEngine::get_reply(0, None).unwrap(), None);
    assert_eq!(KvEngine::get_reply(1, Some(b"v")).unwrap_err().0, "kv_get FFI failed");
    assert!(KvEngine::set_reply(0).is_ok());
    assert_eq!(KvEngine::set_reply(2).unwrap_err().0, "kv_set FFI failed");
    assert!(KvEngine::del_reply(0).is_ok());
    assert_eq!(KvEngine::del_reply(-2).unwrap_err().0, "kv_del FFI failed");
}

#[test]
fn persist_call_and_reply() {
    let db = open_db();
    match db.persist() {
        BoundaryCall::Persist { handle } => assert_eq!(handle.token, 77),
        other => panic!("{:?}", other),
    }
    assert!(Talon::persist_reply(0).is_ok());
    assert_eq!(Talon::persist_reply(1).unwrap_err().0, "persist FFI failed");
}

#[test]
fn fts_commands() {
    let db = open_db();
    let fts = db.fts().unwrap();
    let config = FtsConfig { tokenizer: "simple".to_string() };
    assert_eq!(
        command_text(fts.create_index("docs", &config).unwrap()),
        r#"{"action":"create_index","module":"fts","params":{"name":"docs"}}"#
    );
    let doc = FtsDoc {
        doc_id: "d1".to_string(),
        fields: vec![
            ("title".to_string(), "T".to_string()),
            ("body".to_string(), "B".to_string()),
        ],
    };
    assert_eq!(
        command_text(fts.index_doc("docs", &doc).unwrap()),
        r#"{"action":"index","module":"fts","params":{"doc_id":"d1","fields":{"body":"B","title":"T"},"name":"docs"}}"#
    );
    assert_eq!(
        command_text(fts.delete_doc("docs", "d1").unwrap()),
        r#"{"action":"delete","module":"fts","params":{"doc_id":"d1","name":"docs"}}"#
    );
    assert_eq!(
        command_text(fts.search("docs", "hello \"world\"", 10).unwrap()),
        r#"{"action":"search","module":"fts","params":{"limit":10,"name":"docs","query":"hello \"world\""}}"#
    );
}

#[test]
fn zero_byte_in_a_command_is_escaped() {
    let db = open_db();
    let fts = db.fts().unwrap();
    let text = command_text(fts.delete_doc("docs", "a\0b").unwrap());
    assert!(text.contains("a\\u0000b"));
}

#[test]
fn fts_replies() {
    assert!(FtsEngine::delete_doc_reply(0, Some(r#"{"ok":true,"data":{"deleted":true}}"#)).unwrap());
    assert!(!FtsEngine::delete_doc_reply(0, Some(r#"{"ok":true}"#)).unwrap());
    assert_eq!(
        FtsEngine::delete_doc_reply(0, Some(r#"{"ok":false,"error":"no index"}"#)).unwrap_err().0,
        "no index"
    );
    let hits = FtsEngine::search_reply(
        0,
        Some(r#"{"ok":true,"data":{"hits":[{"doc_id":"a","score":0.5}]}}"#),
    )
    .unwrap();
    assert_eq!(hits.len(), 1);
    assert_eq!(hits[0].doc_id, "a");
    assert_eq!(hits[0].score, JsonNumber::Float(0.5f64.to_bits()));
    assert!(FtsEngine::search_reply(0, Some(r#"{"ok":true,"data":{}}"#)).unwrap().is_empty());
    assert!(FtsEngine::search_reply(0, Some(r#"{"ok":true}"#)).unwrap().is_empty());
    assert_eq!(
        FtsEngine::search_reply(0, Some(r#"{"ok":false}"#)).unwrap_err().0,
        "unknown"
    );
    assert_eq!(FtsEngine::search_reply(1, None).unwrap_err().0, "execute FFI failed");
}

#[test]
fn execute_replies() {
    assert_eq!(Talon::execute_reply(0, Some("[1, 2]")).unwrap().to_text(), "[1,2]");
    assert_eq!(Talon::execute_reply(5, Some("[1]")).unwrap_err().0, "execute FFI failed");
    assert_eq!(Talon::execute_reply(0, None).unwrap_err().0, "execute returned null output");
    assert!(Talon::execute_reply(0, Some("nope")).unwrap_err().0.starts_with("JSON parse: "));
    assert!(Talon::command_reply(0, Some(r#"{"ok":true}"#)).is_ok());
    assert_eq!(
        Talon::command_reply(0, Some(r#"{"ok":false,"error":"bad"}"#)).unwrap_err().0,
        "bad"
    );
    assert_eq!(Talon::command_reply(0, Some(r#"{}"#)).unwrap_err().0, "unknown");
    assert_eq!(Talon::command_reply(0, None).unwrap_err().0, "execute returned null output");
    assert_eq!(
        Talon::checked_reply(0, Some(r#"{"ok":true,"data":1}"#)).unwrap().to_text(),
        r#"{"data":1,"ok":true}"#
    );
}

#[test]
fn diagnostics() {
    let db = open_db();
    assert_eq!(command_text(db.database_stats().unwrap()), r#"{"module":"database_stats"}"#);
    assert_eq!(command_text(db.health_check().unwrap()), r#"{"module":"health_check"}"#);
    assert_eq!(
        Talon::database_stats_reply(0, Some(r#"{"ok":true,"data":{"keys":3}}"#)).unwrap().to_text(),
        r#"{"keys":3}"#
    );
    assert_eq!(
        Talon::database_stats_reply(0, Some(r#"{"ok":true}"#)).unwrap().to_text(),
        "{}"
    );
    assert_eq!(Talon::database_stats_reply(1, None).unwrap_err().0, "execute FFI failed");
    assert_eq!(
        Talon::health_check_reply(0, Some(r#"{"ok":true,"data":{"status":"ok"}}"#)).to_text(),
        r#"{"status":"ok"}"#
    );
    assert_eq!(Talon::health_check_reply(0, Some(r#"{"ok":true}"#)).to_text(), "{}");
    assert_eq!(Talon::health_check_reply(1, None).to_text(), r#"{"status":"error"}"#);
    assert_eq!(Talon::health_check_reply(0, None).to_text(), r#"{"status":"error"}"#);
    assert_eq!(Talon::health_check_reply(0, Some("{")).to_text(), r#"{"status":"error"}"#);
    assert_eq!(
        Talon::health_check_reply(0, Some(r#"{"ok":false}"#)).to_text(),
        r#"{"status":"error"}"#
    );
}

#[test]
fn vector_calls() {
    let db = open_db();
    let vectors = db.vector("emb").unwrap();
    let v = vec![1.0f32.to_bits(), 2.0f32.to_bits()];
    match vectors.insert(9, &v).unwrap() {
        BoundaryCall::VectorInsert { handle, index, id, vector } => {
            assert_eq!(handle.token, 77);
            assert_eq!(index, b"emb".to_vec());
            assert_eq!(id, 9);
            assert_eq!(vector, v);
        }
        other => panic!("{:?}", other),
    }
    match vectors.search(&v, 5, "cosine").unwrap() {
        BoundaryCall::VectorSearch { handle, index, query, k, metric } => {
            assert_eq!(handle.token, 77);
            assert_eq!(index, b"emb".to_vec());
            assert_eq!(query, v);
            assert_eq!(k, 5);
            assert_eq!(metric, b"cosine".to_vec());
        }
        other => panic!("{:?}", other),
    }
    assert!(vectors.search(&v, 5, "co\0sine").is_err());
    assert_eq!(
        command_text(vectors.delete(9).unwrap()),
        r#"{"action":"delete","module":"vector","params":{"id":9,"index":"emb"}}"#
    );
    assert_eq!(
        command_text(vectors.count().unwrap()),
        r#"{"action":"count","module":"vector","params":{"index":"emb"}}"#
    );
    let broken = db.vector("e\0mb").unwrap();
    assert!(broken.insert(1, &v).is_err());
    assert!(broken.search(&v, 1, "l2").is_err());
}

#[test]
fn vector_replies() {
    assert!(VectorEngine::insert_reply(0).is_ok());
    assert_eq!(VectorEngine::insert_reply(1).unwrap_err().0, "vector_insert FFI failed");
    let mut data = vec![1u8, 0, 0, 0];
    data.extend_from_slice(&7u64.to_le_bytes());
    data.extend_from_slice(&0.125f32.to_le_bytes());
    assert_eq!(
        VectorEngine::search_reply(0, Some(&data)).unwrap(),
        vec![(7, 0.125f32.to_bits())]
    );
    assert!(VectorEngine::search_reply(0, None).unwrap().is_empty());
    assert!(VectorEngine::search_reply(0, Some(&[])).unwrap().is_empty());
    assert_eq!(
        VectorEngine::search_reply(0, Some(&[1])).unwrap_err().0,
        "vector binary result too short"
    );
    assert_eq!(
        VectorEngine::search_reply(4, Some(&data)).unwrap_err().0,
        "vector_search FFI failed"
    );
    assert_eq!(
        VectorEngine::count_reply(0, Some(r#"{"ok":true,"data":{"count":3}}"#)).unwrap(),
        3
    );
    assert_eq!(VectorEngine::count_reply(0, Some(r#"{"ok":true}"#)).unwrap(), 0);
    assert_eq!(
        VectorEngine::count_reply(0, Some(r#"{"ok":false,"error":"gone"}"#)).unwrap_err().0,
        "gone"
    );
}

#[test]
fn hybrid_search_reports_no_hit() {
    let db = open_db();
    let query_vec = vec![1.0f32.to_bits()];
    let q = HybridQuery {
        fts_index: "docs",
        vec_index: "emb",
        query_text: "hello",
        query_vec: &query_vec,
        metric: "cosine",
        limit: 10,
        fts_weight: 0.5f64.to_bits(),
        vec_weight: 0.5f64.to_bits(),
        num_candidates: None,
        pre_filter: None,
    };
    assert!(hybrid_search(db.store_ref(), &q).unwrap().is_empty());
}

#[test]
fn default_config_names_no_tokenizer() {
    assert_eq!(FtsConfig::default().tokenizer, "");
}

#[test]
fn null_handle_is_zero() {
    assert_eq!(TalonHandle::null(), TalonHandle { token: 0 });
}

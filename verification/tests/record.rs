use audit_http::protocol::AuditError;
use audit_http::record::{array_body, seal_record, serialize_event};
use audit_http::text::{first_segment, has_prefix};

fn value(text: &str) -> serde_json::Value {
    serde_json::from_str(text).unwrap()
}

#[test]
fn a_record_is_the_canonical_text() {
    let (record, hash) = serialize_event(Ok(value(r#" { "b": [true, null], "a": 1 } "#))).unwrap();
    assert_eq!(record, br#"{"a":1,"b":[true,null]}"#.to_vec());
    assert_eq!(hash, "1cc69c7fa23616ca2ec3ee70d24390a6225c8832db8a4c814c7e0e7f942f8668");
}

#[test]
fn the_hash_is_sha256_in_lower_case_hex() {
    let (record, hash) = seal_record(Ok(br#"{"event_id":"e1"}"#.to_vec())).unwrap();
    assert_eq!(record, br#"{"event_id":"e1"}"#.to_vec());
    assert_eq!(hash, "337d3a6f8277aa12ab43dd3a843cf8023ea867e4fe181b19b3a733c2268e53c7");
    let (_, empty) = seal_record(Ok(Vec::new())).unwrap();
    assert_eq!(empty, "e3b0c44298fc1c149afbf4c8996fb92427ae41e4649b934ca495991b7852b855");
    assert_eq!(empty.len(), 64);
}

#[test]
fn an_event_without_json_is_reported() {
    let error = AuditError::WriteFailed { reason: "serialize audit event: bad key".to_owned() };
    assert_eq!(serialize_event(Err("bad key".to_owned())), Err(error.clone()));
    assert_eq!(seal_record(Err("bad key".to_owned())), Err(error));
}

#[test]
fn the_body_is_what_serde_json_writes_for_the_array() {
    let texts = [r#"{"event_id":"e1"}"#, r#"{"event_id":"e2","n":[1,2]}"#, "null"];
    for n in 0..=texts.len() {
        let values: Vec<serde_json::Value> = texts[..n].iter().map(|text| value(text)).collect();
        let records: Vec<Vec<u8>> =
            values.iter().map(|v| serialize_event(Ok(v.clone())).unwrap().0).collect();
        assert_eq!(array_body(&records), serde_json::to_vec(&values).unwrap());
    }
}

#[test]
fn records_stand_verbatim_in_the_body() {
    let records = vec![b"1".to_vec(), b"22".to_vec(), b"333".to_vec()];
    let body = array_body(&records);
    assert_eq!(body, b"[1,22,333]".to_vec());
    assert_eq!(body[1..2].to_vec(), records[0]);
    assert_eq!(body[3..5].to_vec(), records[1]);
    assert_eq!(body[6..9].to_vec(), records[2]);
}

#[test]
fn prefixes() {
    assert!(has_prefix("http://c", "http://"));
    assert!(has_prefix("x", ""));
    assert!(!has_prefix("http:/", "http://"));
    assert!(!has_prefix("xhttp://", "http://"));
    assert!(has_prefix("\u{e9}t\u{e9}", "\u{e9}"));
}

#[test]
fn first_segments() {
    assert_eq!(first_segment("plugin::sink::inner"), "plugin");
    assert_eq!(first_segment("plugin"), "plugin");
    assert_eq!(first_segment(""), "");
    assert_eq!(first_segment("::x"), "");
    assert_eq!(first_segment("a:b::c"), "a:b");
    assert_eq!(first_segment("a:"), "a:");
}

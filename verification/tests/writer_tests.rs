use directory_spider::record::{FileMetadata, MetaSnapshot};
use directory_spider::timefmt::TimeStamp;
use directory_spider::writer::JsonArrayWriter;

fn snapshot(size: u64) -> MetaSnapshot {
    MetaSnapshot {
        size,
        created: TimeStamp::Unavailable,
        accessed: TimeStamp::Unavailable,
        modified: TimeStamp::Unavailable,
        read_only: false,
    }
}

#[test]
fn empty_document_is_empty_array() {
    let (mut w, mut out) = JsonArrayWriter::new();
    out.push_str(&w.finalize());
    assert_eq!(out, "[]");
    let v: serde_json::Value = serde_json::from_str(&out).expect("must parse");
    assert!(v.as_array().expect("top level must be an array").is_empty());
}

#[test]
fn documents_are_comma_separated_arrays() {
    let (mut w, mut out) = JsonArrayWriter::new();
    let a = FileMetadata::from_snapshot("/d/a.txt".to_string(), &snapshot(1));
    let b = FileMetadata::from_snapshot("/d/b.txt".to_string(), &snapshot(2));
    out.push_str(&w.append(&a));
    out.push_str(&w.append(&b));
    out.push_str(&w.finalize());
    let v: serde_json::Value = serde_json::from_str(&out).expect("must parse");
    let arr = v.as_array().expect("top level must be an array");
    assert_eq!(arr.len(), 2);
    assert_eq!(arr[0]["name"], serde_json::Value::String("a.txt".to_string()));
    assert_eq!(arr[1]["name"], serde_json::Value::String("b.txt".to_string()));
}

#[test]
fn single_record_document() {
    let (mut w, mut out) = JsonArrayWriter::new();
    let a = FileMetadata::from_snapshot("x.log".to_string(), &snapshot(0));
    out.push_str(&w.append(&a));
    out.push_str(&w.finalize());
    assert!(out.starts_with('['));
    assert!(out.ends_with(']'));
    assert!(!out.contains(",\"name\"") || out.matches("\"name\"").count() == 1);
    let v: serde_json::Value = serde_json::from_str(&out).expect("must parse");
    assert_eq!(v.as_array().expect("array").len(), 1);
}

use directory_spider::record::{ExtractionError, FileMetadata, MetaSnapshot};
use directory_spider::timefmt::TimeStamp;

fn snapshot(size: u64, read_only: bool) -> MetaSnapshot {
    MetaSnapshot {
        size,
        created: TimeStamp::Unavailable,
        accessed: TimeStamp::Unavailable,
        modified: TimeStamp::Unavailable,
        read_only,
    }
}

#[test]
fn record_fields_from_path() {
    let rec = FileMetadata::from_snapshot("/data/a.txt".to_string(), &snapshot(10, false));
    assert_eq!(rec.name(), "a.txt");
    assert_eq!(rec.full_path, "/data/a.txt");
    assert_eq!(rec.extension, "txt");
    assert_eq!(rec.size(), 10);
    assert!(!rec.is_read_only());
}

#[test]
fn record_without_extension() {
    let rec = FileMetadata::from_snapshot("/data/README".to_string(), &snapshot(1, true));
    assert_eq!(rec.name(), "README");
    assert_eq!(rec.extension, "");
    assert!(rec.is_read_only());
}

#[test]
fn metadata_from_path_mirrors_the_attempt() {
    let ok = FileMetadata::metadata_from_path("/d/a.txt".to_string(), &Ok(snapshot(5, false)))
        .expect("a readable snapshot yields a record");
    assert_eq!(ok.name(), "a.txt");
    assert_eq!(ok.size(), 5);
    let err = FileMetadata::metadata_from_path("/d/a.txt".to_string(), &Err(ExtractionError::Unreadable));
    assert!(matches!(err, Err(ExtractionError::Unreadable)));
}

#[test]
fn record_json_exact() {
    let meta = MetaSnapshot {
        size: 10,
        created: TimeStamp::Millis(1234),
        accessed: TimeStamp::BeforeEpoch,
        modified: TimeStamp::Unavailable,
        read_only: false,
    };
    let rec = FileMetadata::from_snapshot("/data/a.txt".to_string(), &meta);
    let expected = "{\"name\":\"a.txt\",\"full_path\":\"/data/a.txt\",\"extension\":\"txt\",\"size\":10,\"creation_time\":\"/Date(1234)/\",\"last_access\":\"/Date(0)/\",\"last_write\":\"/Date(0)/\",\"is_read_only\":false}";
    assert_eq!(rec.to_json(), expected);
}

#[test]
fn record_json_escapes_and_parses() {
    let rec = FileMetadata::from_snapshot("/da\"ta\\x\n/we\tird.txt".to_string(), &snapshot(3, true));
    let text = rec.to_json();
    let v: serde_json::Value = serde_json::from_str(&text).expect("record text must parse");
    assert_eq!(v["full_path"], serde_json::Value::String("/da\"ta\\x\n/we\tird.txt".to_string()));
    assert_eq!(v["name"], serde_json::Value::String("we\tird.txt".to_string()));
    assert_eq!(v["size"], serde_json::Value::from(3u64));
    assert_eq!(v["is_read_only"], serde_json::Value::Bool(true));
}

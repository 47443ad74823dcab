use directory_spider::timefmt::{format_system_time, system_time_to_unix_timestamp, time_field, TimeStamp};

#[test]
fn unix_timestamp_known() {
    assert_eq!(system_time_to_unix_timestamp(&TimeStamp::Millis(5)), 5);
    assert_eq!(system_time_to_unix_timestamp(&TimeStamp::Millis(1700000000000)), 1700000000000);
}

#[test]
fn unix_timestamp_before_epoch() {
    assert_eq!(system_time_to_unix_timestamp(&TimeStamp::BeforeEpoch), 0);
}

#[test]
fn format_known_time() {
    assert_eq!(format_system_time(&TimeStamp::Millis(1234)), Some("/Date(1234)/".to_string()));
    assert_eq!(format_system_time(&TimeStamp::BeforeEpoch), Some("/Date(0)/".to_string()));
}

#[test]
fn format_unavailable_time() {
    assert_eq!(format_system_time(&TimeStamp::Unavailable), None);
}

#[test]
fn field_placeholder() {
    assert_eq!(time_field(&TimeStamp::Unavailable), "/Date(0)/");
    assert_eq!(time_field(&TimeStamp::Millis(42)), "/Date(42)/");
}

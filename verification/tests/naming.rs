use regex::Regex;
use vsnap::naming::{
    decode, encode, extract_snapshot_datetime, extract_snapshot_timestamp, get_snapshot_volume_name,
    is_snapshot_volume_name, recognises, strip, strip_snapshot_prefix, Snapshot, TimestampError,
    SNAPSHOT_PREFIX,
};

#[test]
fn volume_name_holds_prefix_timestamp_and_name() {
    assert_eq!(get_snapshot_volume_name(1700000000, "db1"), "vsnap-1700000000-db1");
    assert_eq!(get_snapshot_volume_name(0, "x"), "vsnap-0-x");
    assert_eq!(get_snapshot_volume_name(-5, "x"), "vsnap--5-x");
    assert_eq!(
        get_snapshot_volume_name(i64::MAX, "big"),
        "vsnap-9223372036854775807-big"
    );
    assert_eq!(
        get_snapshot_volume_name(i64::MIN, "small"),
        "vsnap--9223372036854775808-small"
    );
    assert_eq!(get_snapshot_volume_name(1700000000, ""), "vsnap-1700000000-");
}

#[test]
fn snapshot_names_its_volume() {
    let snapshot = Snapshot { timestamp: 1712345678, name: "my-data".to_string() };
    assert_eq!(snapshot.to_volume_name(), "vsnap-1712345678-my-data");
}

#[test]
fn prefix_is_vsnap() {
    assert_eq!(SNAPSHOT_PREFIX, "vsnap");
}

#[test]
fn strip_gives_the_snapshot_name() {
    assert_eq!(strip_snapshot_prefix("vsnap-1700000000-db1").as_deref(), Some("db1"));
    assert_eq!(strip_snapshot_prefix("vsnap-1700000000-a-b-c").as_deref(), Some("a-b-c"));
    assert_eq!(strip_snapshot_prefix("vsnap-1700000000-123").as_deref(), Some("123"));
    assert_eq!(strip_snapshot_prefix("vsnap-1700000000-").as_deref(), Some(""));
    assert_eq!(strip_snapshot_prefix("vsnap-17000000001234-x").as_deref(), Some("x"));
    assert_eq!(strip_snapshot_prefix("vsnap-1700000000-名前").as_deref(), Some("名前"));
}

#[test]
fn other_names_hold_no_snapshot_name() {
    for name in [
        "vsnap-123-db",
        "vsnap-123-db1",
        "xvsnap-1700000000-db",
        "vsnap-1700000000",
        "vsnap-170000000x-db1",
        "vsnap_1700000000-db1",
        "data",
        "",
    ] {
        assert_eq!(strip_snapshot_prefix(name), None, "{}", name);
        assert!(!is_snapshot_volume_name(name));
        assert!(decode(SNAPSHOT_PREFIX, name).is_none());
    }
}

#[test]
fn nine_digits_are_too_few_and_ten_are_enough() {
    assert!(!is_snapshot_volume_name("vsnap-999999999-x"));
    assert!(is_snapshot_volume_name("vsnap-1000000000-x"));
    assert!(is_snapshot_volume_name("vsnap-0000000001-x"));
}

#[test]
fn recognition_agrees_with_the_pattern() {
    let pattern = Regex::new(r"^vsnap-(\d{10,})-").unwrap();
    let names = [
        "vsnap-1700000000-db1",
        "vsnap-1700000000-",
        "vsnap-1700000000",
        "vsnap-170000000-db1",
        "vsnap-17000000000000000000000000-db1",
        "vsnap--1700000000-db1",
        "vsnap-1700000000a-db1",
        "vsnap-1700000000--db1",
        "Vsnap-1700000000-db1",
        " vsnap-1700000000-db1",
        "vsnap-1700000000-db1\n",
        "prefix-vsnap-1700000000-db1",
        "vsnap",
        "vsnap-",
        "",
        "-",
        "vsnap-0123456789-0123456789-",
    ];
    for name in names {
        assert_eq!(is_snapshot_volume_name(name), pattern.is_match(name), "{}", name);
        assert_eq!(strip_snapshot_prefix(name).is_some(), pattern.is_match(name), "{}", name);
        if let Some(stripped) = strip_snapshot_prefix(name) {
            assert_eq!(stripped, pattern.replace(name, "").to_string(), "{}", name);
        }
    }
}

#[test]
fn only_ascii_digits_make_a_timestamp() {
    assert!(!is_snapshot_volume_name("vsnap-١٧٠٠٠٠٠٠٠٠-db1"));
}

#[test]
fn encoding_is_undone_by_decoding() {
    for (timestamp, name) in [
        (1_000_000_000i64, "a"),
        (1700000000, "db1"),
        (1700000000, "with-hyphens-1234567890-"),
        (i64::MAX, ""),
        (4102444800, "ünïcödé"),
    ] {
        let volume = get_snapshot_volume_name(timestamp, name);
        assert!(is_snapshot_volume_name(&volume));
        assert_eq!(strip_snapshot_prefix(&volume).as_deref(), Some(name));
        assert_eq!(extract_snapshot_timestamp(&volume), Ok(timestamp));
        let snapshot = decode(SNAPSHOT_PREFIX, &volume).unwrap();
        assert_eq!(snapshot.timestamp, timestamp);
        assert_eq!(snapshot.name, name);
    }
}

#[test]
fn short_timestamps_do_not_come_back() {
    let volume = get_snapshot_volume_name(5, "db1");
    assert_eq!(volume, "vsnap-5-db1");
    assert!(!is_snapshot_volume_name(&volume));
    assert_eq!(strip_snapshot_prefix(&volume), None);
    assert!(decode(SNAPSHOT_PREFIX, &volume).is_none());
    assert!(!is_snapshot_volume_name(&get_snapshot_volume_name(-1700000000, "db1")));
}

#[test]
fn the_prefix_is_a_parameter() {
    assert_eq!(encode("backup", 1700000000, "db1"), "backup-1700000000-db1");
    assert!(recognises("backup", "backup-1700000000-db1"));
    assert!(!recognises("backup", "vsnap-1700000000-db1"));
    assert!(!recognises("vsnap", "backup-1700000000-db1"));
    assert_eq!(strip("backup", "backup-1700000000-db1").as_deref(), Some("db1"));
    assert_eq!(strip("backup", "vsnap-1700000000-db1"), None);
    assert!(recognises("", "-1700000000-db1"));
    assert_eq!(strip("", "-1700000000-db1").as_deref(), Some("db1"));
    let snapshot = decode("a-1", "a-1-1700000000-x-y").unwrap();
    assert_eq!(snapshot.timestamp, 1700000000);
    assert_eq!(snapshot.name, "x-y");
}

#[test]
fn decode_refuses_what_is_no_snapshot() {
    assert!(decode("vsnap", "vsnap-170000000-db1").is_none());
    assert!(decode("vsnap", "volume").is_none());
    assert!(decode("vsnap", "vsnap-99999999999999999999-db1").is_none());
    assert!(decode("vsnap", "vsnap-9223372036854775808-db1").is_none());
    assert_eq!(decode("vsnap", "vsnap-9223372036854775807-db1").unwrap().timestamp, i64::MAX);
    assert_eq!(decode("vsnap", "vsnap-0000000000042-db1").unwrap().timestamp, 42);
}

#[test]
fn timestamp_is_read_from_the_name() {
    assert_eq!(extract_snapshot_timestamp("vsnap-1700000000-db1"), Ok(1700000000));
    assert_eq!(extract_snapshot_timestamp("vsnap-0000000007-db1"), Ok(7));
    assert_eq!(
        extract_snapshot_timestamp("vsnap-170000000-db1"),
        Err(TimestampError::NotASnapshot)
    );
    assert_eq!(
        extract_snapshot_timestamp("vsnap-9223372036854775808-db1"),
        Err(TimestampError::TooLarge)
    );
    assert_eq!(
        extract_snapshot_timestamp("vsnap-123456789012345678901234567890-db1"),
        Err(TimestampError::TooLarge)
    );
}

#[test]
fn datetime_is_a_time_of_the_calendar() {
    assert_eq!(extract_snapshot_datetime("vsnap-1700000000-db1"), Ok(1700000000));
    assert_eq!(extract_snapshot_datetime("vsnap-0000000000-db1"), Ok(0));
    assert_eq!(
        extract_snapshot_datetime("vsnap-9223372036854775807-db1"),
        Err(TimestampError::OutOfRange)
    );
    assert_eq!(extract_snapshot_datetime("data"), Err(TimestampError::NotASnapshot));
    assert_eq!(
        extract_snapshot_datetime("vsnap-9223372036854775808-db1"),
        Err(TimestampError::TooLarge)
    );
}

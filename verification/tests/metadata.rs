use vsnap::metadata::{MalformedMetadata, SnapshotMetadata, SNAPSHOT_METADATA};
use vsnap::wire::{decode_metadata, encode_metadata};

#[test]
fn new_holds_the_size() {
    assert_eq!(SnapshotMetadata::new(42).total_size, 42);
    assert_eq!(SnapshotMetadata::new(0), SnapshotMetadata { total_size: 0 });
}

#[test]
fn the_file_is_named() {
    assert_eq!(SNAPSHOT_METADATA, "metadata.json");
}

#[test]
fn metadata_is_written_as_one_json_object() {
    assert_eq!(SnapshotMetadata::new(1500).write(), b"{\"total_size\":1500}".to_vec());
    assert_eq!(SnapshotMetadata::new(0).write(), b"{\"total_size\":0}".to_vec());
    assert_eq!(
        SnapshotMetadata::new(u64::MAX).write(),
        b"{\"total_size\":18446744073709551615}".to_vec()
    );
    assert_eq!(encode_metadata(7), b"{\"total_size\":7}".to_vec());
}

#[test]
fn metadata_is_what_serde_json_writes() {
    for total_size in [0u64, 1, 1500, u64::MAX] {
        let mut object = serde_json::Map::new();
        object.insert("total_size".to_string(), serde_json::Value::from(total_size));
        let expected = serde_json::to_string(&serde_json::Value::Object(object)).unwrap();
        assert_eq!(SnapshotMetadata::new(total_size).write(), expected.into_bytes());
    }
}

#[test]
fn metadata_is_read_back() {
    for total_size in [0u64, 1, 10, 1500, 4294967296, u64::MAX] {
        let written = SnapshotMetadata::new(total_size).write();
        assert_eq!(SnapshotMetadata::read(&written), Ok(SnapshotMetadata { total_size }));
        assert_eq!(decode_metadata(&written), Some(total_size));
    }
    for spelled in [
        &b"  {\"total_size\":12}\n"[..],
        b"{\"total_size\": 12}",
        b"{ \"total_size\" : 12 }",
        b"{\n\t\"total_size\":\r\n12\n}\n",
    ] {
        assert_eq!(SnapshotMetadata::read(spelled), Ok(SnapshotMetadata { total_size: 12 }));
        let parsed: serde_json::Value = serde_json::from_slice(spelled).unwrap();
        assert_eq!(parsed.get("total_size").and_then(|v| v.as_u64()), Some(12));
    }
}

#[test]
fn unreadable_metadata_is_an_error() {
    let contents: Vec<&[u8]> = vec![
        b"",
        b"{}",
        b"{\"total_size\":}",
        b"{\"total_size\":12",
        b"{\"total_size\":012}",
        b"{\"total_size\":-1}",
        b"{\"total_size\":1.5}",
        b"{\"total_size\":1 2}",
        b"{\"total_ size\":12}",
        b"{\"total_size\":18446744073709551616}",
        b"{\"total\":12}",
        b"{\"total_size\":12}{\"total_size\":12}",
        b"{\"progress\":5,\"total\":10}",
        b"12",
    ];
    for content in contents {
        assert_eq!(SnapshotMetadata::read(content), Err(MalformedMetadata));
        assert_eq!(decode_metadata(content), None);
    }
}

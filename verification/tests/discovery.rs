use vsnap::discovery::{
    at_most_one, find_snapshot_volume_name_by_snapshot_name, find_snapshot_volume_names,
    find_volume_size, find_volumes_of_snapshot, get_volume_sizes_for_volume_names, resolve_by_name,
    verify_snapshot_does_not_exist, verify_volume_exists, verify_volume_not_in_use, Container,
    TooMany, VolumeSize, VolumeUsage,
};
use vsnap::error::{Error, ErrorKind};
use vsnap::naming::get_snapshot_volume_name;

fn names(list: &[&str]) -> Vec<String> {
    list.iter().map(|s| s.to_string()).collect()
}

#[test]
fn only_snapshot_volumes_are_found() {
    let listed = names(&[
        "data",
        "vsnap-1700000000-db1",
        "vsnap-scratch",
        "my-vsnap-1700000000-db1",
        "vsnap-1700000001-db2",
        "vsnap-123-short",
    ]);
    assert_eq!(
        find_snapshot_volume_names(&listed),
        names(&["vsnap-1700000000-db1", "vsnap-1700000001-db2"])
    );
    assert!(find_snapshot_volume_names(&Vec::new()).is_empty());
}

#[test]
fn volumes_of_a_snapshot_are_told_by_its_name() {
    let listed = names(&[
        "vsnap-1700000000-db1",
        "vsnap-1700000001-db10",
        "db1",
        "vsnap-1700000002-db1",
        "vsnap-17000000-db1",
    ]);
    assert_eq!(
        find_volumes_of_snapshot(&listed, "db1"),
        names(&["vsnap-1700000000-db1", "vsnap-1700000002-db1"])
    );
    assert_eq!(find_volumes_of_snapshot(&listed, "db10"), names(&["vsnap-1700000001-db10"]));
    assert!(find_volumes_of_snapshot(&listed, "db").is_empty());
}

#[test]
fn at_most_one_tells_none_one_and_many() {
    assert_eq!(at_most_one(Vec::<u32>::new()), Ok(None));
    assert_eq!(at_most_one(vec![7u32]), Ok(Some(7)));
    assert_eq!(at_most_one(vec![7u32, 8]), Err(TooMany));
    assert_eq!(at_most_one(vec![7u32, 7, 7]), Err(TooMany));
}

#[test]
fn missing_snapshot_is_not_found() {
    let found = resolve_by_name(&Vec::new(), "missing");
    match found {
        Err(Error::SnapshotNotFound { snapshot_name }) => assert_eq!(snapshot_name, "missing"),
        other => panic!("{:?}", other),
    }
    assert!(matches!(
        find_snapshot_volume_name_by_snapshot_name(&Vec::new(), "missing"),
        Ok(None)
    ));
    let listed = names(&["vsnap-1700000000-other", "missing"]);
    assert_eq!(resolve_by_name(&listed, "missing").unwrap_err().kind(), ErrorKind::NotFound);
}

#[test]
fn two_volumes_for_one_name_are_ambiguous() {
    let listed = names(&["vsnap-1700000000-dup", "vsnap-1700000500-dup"]);
    match resolve_by_name(&listed, "dup") {
        Err(Error::Ambiguous { snapshot_name }) => assert_eq!(snapshot_name, "dup"),
        other => panic!("{:?}", other),
    }
    let error = find_snapshot_volume_name_by_snapshot_name(&listed, "dup").unwrap_err();
    assert_eq!(error.kind(), ErrorKind::Ambiguous);
    assert_eq!(error.message(), "More than one snapshot with the same name: dup");
    assert_eq!(
        verify_snapshot_does_not_exist(&listed, "dup").unwrap_err().kind(),
        ErrorKind::Ambiguous
    );
}

#[test]
fn a_created_snapshot_is_found_and_a_dropped_one_is_not() {
    let mut listed = names(&["data", "vsnap-1600000000-other"]);
    assert!(verify_snapshot_does_not_exist(&listed, "db1").is_ok());
    let volume = get_snapshot_volume_name(1700000000, "db1");
    listed.push(volume.clone());
    assert_eq!(resolve_by_name(&listed, "db1").unwrap(), volume);
    assert_eq!(
        find_snapshot_volume_name_by_snapshot_name(&listed, "db1").unwrap(),
        Some(volume.clone())
    );
    listed.retain(|v| v != &volume);
    assert_eq!(resolve_by_name(&listed, "db1").unwrap_err().kind(), ErrorKind::NotFound);
}

#[test]
fn a_taken_name_already_exists() {
    let listed = names(&["vsnap-1700000000-db1"]);
    match verify_snapshot_does_not_exist(&listed, "db1") {
        Err(Error::AlreadyExists { snapshot_name }) => assert_eq!(snapshot_name, "db1"),
        other => panic!("{:?}", other),
    }
    assert!(verify_snapshot_does_not_exist(&listed, "db2").is_ok());
}

#[test]
fn volume_must_exist() {
    assert!(verify_volume_exists(true, "data").is_ok());
    let error = verify_volume_exists(false, "data").unwrap_err();
    assert_eq!(error.kind(), ErrorKind::NotFound);
    assert_eq!(error.message(), "Volume does not exist: data");
}

#[test]
fn unused_volume_passes() {
    assert!(verify_volume_not_in_use(&Vec::new()).is_ok());
}

#[test]
fn every_container_blocks_and_is_named_without_its_slash() {
    let containers = vec![
        Container { names: names(&["/web", "/alias"]) },
        Container { names: Vec::new() },
        Container { names: names(&["plain"]) },
        Container { names: names(&["//double"]) },
        Container { names: names(&["/"]) },
    ];
    match verify_volume_not_in_use(&containers) {
        Err(Error::InUse { users }) => assert_eq!(users, names(&["web", "plain", "/double", ""])),
        other => panic!("{:?}", other),
    }
    let error = verify_volume_not_in_use(&vec![
        Container { names: names(&["/web"]) },
        Container { names: names(&["/db"]) },
    ])
    .unwrap_err();
    assert_eq!(error.kind(), ErrorKind::InUse);
    assert_eq!(error.message(), "Volume is in use by web, db");
}

#[test]
fn a_container_without_a_name_blocks_too() {
    let error = verify_volume_not_in_use(&vec![Container { names: Vec::new() }]).unwrap_err();
    match error {
        Error::InUse { users } => assert!(users.is_empty()),
        other => panic!("{:?}", other),
    }
}

#[test]
fn sizes_follow_the_names() {
    let usage = vec![
        VolumeUsage { name: "a".to_string(), size: Some(10) },
        VolumeUsage { name: "b".to_string(), size: None },
        VolumeUsage { name: "a".to_string(), size: Some(30) },
        VolumeUsage { name: "c".to_string(), size: Some(-1) },
    ];
    assert_eq!(find_volume_size(&usage, "a"), Some(VolumeSize::Bytes(30)));
    assert_eq!(find_volume_size(&usage, "b"), Some(VolumeSize::Unavailable));
    assert_eq!(find_volume_size(&usage, "c"), Some(VolumeSize::Bytes(-1)));
    assert_eq!(find_volume_size(&usage, "d"), None);
    assert_eq!(
        get_volume_sizes_for_volume_names(&usage, &names(&["d", "b", "a"])),
        vec![None, Some(VolumeSize::Unavailable), Some(VolumeSize::Bytes(30))]
    );
    assert!(get_volume_sizes_for_volume_names(&usage, &Vec::new()).is_empty());
}

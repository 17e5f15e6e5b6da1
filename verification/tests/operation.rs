use vsnap::discovery::{Container, VolumeSize, VolumeUsage};
use vsnap::error::{Error, ErrorKind};
use vsnap::operation::{Cli, Commands, Operation, Outcome, Request, Response, Step, UNEXPECTED_RESPONSE};
use vsnap::worker::{Failure, Report};

fn names(list: &[&str]) -> Vec<String> {
    list.iter().map(|s| s.to_string()).collect()
}

fn clean() -> Response {
    Response::Worker(Report { failure: None, cleanup: None })
}

fn drive(command: Commands, now: i64, responses: Vec<Response>) -> (Operation, Vec<Request>) {
    let (mut op, first) = Operation::start(command, now);
    let mut requests = vec![first];
    for response in responses {
        let (next, request) = op.step(response);
        op = next;
        requests.push(request);
    }
    (op, requests)
}

fn show(request: &Request) -> String {
    match request {
        Request::ListVolumes => "list-volumes".to_string(),
        Request::ListContainers { volume } => format!("list-containers {}", volume),
        Request::InspectVolume { volume } => format!("inspect {}", volume),
        Request::Confirm => "confirm".to_string(),
        Request::CreateVolume { volume } => format!("create {}", volume),
        Request::RemoveVolume { volume } => format!("remove {}", volume),
        Request::RunWorker { invocation } => format!("run {}", invocation.cmd.join(" ")),
        Request::QueryUsage => "usage".to_string(),
        Request::Finish { result: Ok(_) } => "finish ok".to_string(),
        Request::Finish { result: Err(e) } => format!("finish {:?}", e.kind()),
        Request::Stop => "stop".to_string(),
    }
}

fn trace(requests: &[Request]) -> Vec<String> {
    requests.iter().map(show).collect()
}

fn last_error(requests: Vec<Request>) -> Error {
    match requests.into_iter().last() {
        Some(Request::Finish { result: Err(e) }) => e,
        other => panic!("{:?}", other),
    }
}

fn create(compress: bool) -> Commands {
    Commands::Create {
        compress,
        source_volume_name: "data".to_string(),
        snapshot_name: "db1".to_string(),
    }
}

fn restore(drop: bool) -> Commands {
    Commands::Restore {
        drop,
        snapshot_name: "db1".to_string(),
        restore_volume_name: "data2".to_string(),
    }
}

#[test]
fn the_command_line_holds_a_command() {
    let cli = Cli { command: Commands::List { size: true } };
    assert!(matches!(cli.command, Commands::List { size: true }));
}

#[test]
fn create_checks_then_makes_the_volume_then_runs_the_worker() {
    let (op, requests) = drive(
        create(true),
        1700000000,
        vec![
            Response::Volumes(names(&["data", "vsnap-1600000000-other"])),
            Response::Containers(Vec::new()),
            Response::Exists(true),
            Response::Done,
            clean(),
        ],
    );
    assert!(op.is_finished());
    assert_eq!(
        trace(&requests),
        vec![
            "list-volumes",
            "list-containers data",
            "inspect data",
            "create vsnap-1700000000-db1",
            "run snapshot /mnt/source /mnt/snapshot --compress",
            "finish ok",
        ]
    );
    match &requests[4] {
        Request::RunWorker { invocation } => {
            assert_eq!(invocation.mounts[0].source, "data");
            assert!(invocation.mounts[0].read_only);
            assert_eq!(invocation.mounts[1].source, "vsnap-1700000000-db1");
            assert!(!invocation.mounts[1].read_only);
        }
        other => panic!("{:?}", other),
    }
    assert!(matches!(
        requests.last(),
        Some(Request::Finish { result: Ok(Outcome::Done) })
    ));
}

#[test]
fn a_second_snapshot_of_the_same_name_already_exists() {
    let (op, requests) = drive(
        create(false),
        1700000500,
        vec![Response::Volumes(names(&["vsnap-1700000000-db1"]))],
    );
    assert!(op.is_finished());
    assert_eq!(trace(&requests), vec!["list-volumes", "finish AlreadyExists"]);
    let error = last_error(requests);
    assert_eq!(error.message(), "Snapshot already exists: db1");
}

#[test]
fn create_after_create_is_refused() {
    let mut volumes = names(&["data"]);
    let (_, requests) = drive(
        create(false),
        1700000000,
        vec![
            Response::Volumes(volumes.clone()),
            Response::Containers(Vec::new()),
            Response::Exists(true),
            Response::Done,
            clean(),
        ],
    );
    for request in &requests {
        if let Request::CreateVolume { volume } = request {
            volumes.push(volume.clone());
        }
    }
    assert_eq!(volumes, names(&["data", "vsnap-1700000000-db1"]));
    let (_, requests) = drive(create(false), 1700000100, vec![Response::Volumes(volumes)]);
    assert_eq!(last_error(requests).kind(), ErrorKind::AlreadyExists);
}

#[test]
fn create_refuses_an_ambiguous_name() {
    let (_, requests) = drive(
        create(false),
        1700000500,
        vec![Response::Volumes(names(&["vsnap-1700000000-db1", "vsnap-1700000001-db1"]))],
    );
    assert_eq!(trace(&requests), vec!["list-volumes", "finish Ambiguous"]);
}

#[test]
fn create_refuses_a_source_in_use() {
    let (_, requests) = drive(
        create(false),
        1700000000,
        vec![
            Response::Volumes(Vec::new()),
            Response::Containers(vec![Container { names: names(&["/web"]) }]),
        ],
    );
    assert_eq!(
        trace(&requests),
        vec!["list-volumes", "list-containers data", "finish InUse"]
    );
    assert_eq!(last_error(requests).message(), "Volume is in use by web");
}

#[test]
fn create_refuses_a_missing_source() {
    let (_, requests) = drive(
        create(false),
        1700000000,
        vec![
            Response::Volumes(Vec::new()),
            Response::Containers(Vec::new()),
            Response::Exists(false),
        ],
    );
    assert_eq!(
        trace(&requests),
        vec!["list-volumes", "list-containers data", "inspect data", "finish NotFound"]
    );
    assert_eq!(last_error(requests).message(), "Volume does not exist: data");
}

#[test]
fn create_passes_on_the_runtime_failure() {
    let (_, requests) = drive(
        create(false),
        1700000000,
        vec![
            Response::Volumes(Vec::new()),
            Response::Containers(Vec::new()),
            Response::Exists(true),
            Response::Failed("volume exists".to_string()),
        ],
    );
    let error = last_error(requests);
    assert_eq!(error.kind(), ErrorKind::RuntimeError);
    assert_eq!(error.message(), "volume exists");
}

#[test]
fn create_reports_a_failed_worker() {
    let (_, requests) = drive(
        create(false),
        1700000000,
        vec![
            Response::Volumes(Vec::new()),
            Response::Containers(Vec::new()),
            Response::Exists(true),
            Response::Done,
            Response::Worker(Report {
                failure: Some(Failure::WorkerFailed { exit_code: 2 }),
                cleanup: None,
            }),
        ],
    );
    let error = last_error(requests);
    assert_eq!(error.kind(), ErrorKind::ArchiveError);
    assert_eq!(error.message(), "Worker exited with status 2");
}

#[test]
fn restore_into_a_new_volume() {
    let (op, requests) = drive(
        restore(false),
        0,
        vec![
            Response::Volumes(names(&["vsnap-1700000000-db1", "data"])),
            Response::Exists(false),
            Response::Done,
            clean(),
        ],
    );
    assert!(op.is_finished());
    assert_eq!(
        trace(&requests),
        vec![
            "list-volumes",
            "inspect data2",
            "create data2",
            "run restore /mnt/snapshot /mnt/restore",
            "finish ok",
        ]
    );
    match &requests[3] {
        Request::RunWorker { invocation } => {
            assert_eq!(invocation.mounts[0].source, "vsnap-1700000000-db1");
            assert!(invocation.mounts[0].read_only);
            assert_eq!(invocation.mounts[1].source, "data2");
        }
        other => panic!("{:?}", other),
    }
}

#[test]
fn restore_over_a_volume_drops_it_with_the_users_word() {
    let (_, requests) = drive(
        restore(false),
        0,
        vec![
            Response::Volumes(names(&["vsnap-1700000000-db1"])),
            Response::Exists(true),
            Response::Answer(true),
            Response::Containers(Vec::new()),
            Response::Done,
            Response::Done,
            clean(),
        ],
    );
    assert_eq!(
        trace(&requests),
        vec![
            "list-volumes",
            "inspect data2",
            "confirm",
            "list-containers data2",
            "remove data2",
            "create data2",
            "run restore /mnt/snapshot /mnt/restore",
            "finish ok",
        ]
    );
}

#[test]
fn restore_without_the_users_word_drops_nothing() {
    let (_, requests) = drive(
        restore(false),
        0,
        vec![
            Response::Volumes(names(&["vsnap-1700000000-db1"])),
            Response::Exists(true),
            Response::Answer(false),
            Response::Done,
            clean(),
        ],
    );
    assert_eq!(
        trace(&requests),
        vec![
            "list-volumes",
            "inspect data2",
            "confirm",
            "create data2",
            "run restore /mnt/snapshot /mnt/restore",
            "finish ok",
        ]
    );
}

#[test]
fn restore_does_not_drop_a_volume_in_use() {
    let (_, requests) = drive(
        restore(false),
        0,
        vec![
            Response::Volumes(names(&["vsnap-1700000000-db1"])),
            Response::Exists(true),
            Response::Answer(true),
            Response::Containers(vec![Container { names: names(&["/db"]) }]),
        ],
    );
    assert_eq!(
        trace(&requests),
        vec!["list-volumes", "inspect data2", "confirm", "list-containers data2", "finish InUse"]
    );
}

#[test]
fn restore_and_drop_removes_the_snapshot_afterwards() {
    let (_, requests) = drive(
        restore(true),
        0,
        vec![
            Response::Volumes(names(&["vsnap-1700000000-db1"])),
            Response::Exists(false),
            Response::Done,
            clean(),
            Response::Containers(Vec::new()),
            Response::Done,
        ],
    );
    assert_eq!(
        trace(&requests),
        vec![
            "list-volumes",
            "inspect data2",
            "create data2",
            "run restore /mnt/snapshot /mnt/restore",
            "list-containers vsnap-1700000000-db1",
            "remove vsnap-1700000000-db1",
            "finish ok",
        ]
    );
}

#[test]
fn restore_keeps_the_snapshot_when_the_worker_failed() {
    let (_, requests) = drive(
        restore(true),
        0,
        vec![
            Response::Volumes(names(&["vsnap-1700000000-db1"])),
            Response::Exists(false),
            Response::Done,
            Response::Worker(Report {
                failure: Some(Failure::WorkerFailed { exit_code: 1 }),
                cleanup: None,
            }),
        ],
    );
    assert_eq!(
        trace(&requests),
        vec![
            "list-volumes",
            "inspect data2",
            "create data2",
            "run restore /mnt/snapshot /mnt/restore",
            "finish ArchiveError",
        ]
    );
}

#[test]
fn restore_of_a_missing_snapshot_is_not_found() {
    let (_, requests) = drive(restore(false), 0, vec![Response::Volumes(Vec::new())]);
    assert_eq!(trace(&requests), vec!["list-volumes", "finish NotFound"]);
    assert_eq!(last_error(requests).message(), "Snapshot db1 not found");
}

#[test]
fn restore_of_an_ambiguous_snapshot_is_refused() {
    let (_, requests) = drive(
        restore(false),
        0,
        vec![Response::Volumes(names(&["vsnap-1700000000-db1", "vsnap-1700000009-db1"]))],
    );
    assert_eq!(trace(&requests), vec!["list-volumes", "finish Ambiguous"]);
}

#[test]
fn drop_removes_the_unused_snapshot_volume() {
    let (op, requests) = drive(
        Commands::Drop { snapshot_name: "db1".to_string() },
        0,
        vec![
            Response::Volumes(names(&["data", "vsnap-1700000000-db1"])),
            Response::Containers(Vec::new()),
            Response::Done,
        ],
    );
    assert!(op.is_finished());
    assert_eq!(
        trace(&requests),
        vec![
            "list-volumes",
            "list-containers vsnap-1700000000-db1",
            "remove vsnap-1700000000-db1",
            "finish ok",
        ]
    );
}

#[test]
fn drop_does_not_remove_a_snapshot_in_use() {
    let (_, requests) = drive(
        Commands::Drop { snapshot_name: "db1".to_string() },
        0,
        vec![
            Response::Volumes(names(&["vsnap-1700000000-db1"])),
            Response::Containers(vec![Container { names: names(&["/reader"]) }]),
        ],
    );
    assert_eq!(
        trace(&requests),
        vec!["list-volumes", "list-containers vsnap-1700000000-db1", "finish InUse"]
    );
    assert_eq!(last_error(requests).message(), "Volume is in use by reader");
}

#[test]
fn drop_of_a_missing_snapshot_is_not_found() {
    let (_, requests) = drive(
        Commands::Drop { snapshot_name: "missing".to_string() },
        0,
        vec![Response::Volumes(Vec::new())],
    );
    assert_eq!(last_error(requests).message(), "Snapshot missing not found");
}

#[test]
fn list_gives_the_snapshot_volumes() {
    let (_, requests) = drive(
        Commands::List { size: false },
        0,
        vec![Response::Volumes(names(&["a", "vsnap-1700000000-db1", "vsnap-1700000001-db2"]))],
    );
    match requests.into_iter().last() {
        Some(Request::Finish { result: Ok(Outcome::Listing { volumes, sizes }) }) => {
            assert_eq!(volumes, names(&["vsnap-1700000000-db1", "vsnap-1700000001-db2"]));
            assert!(sizes.is_none());
        }
        other => panic!("{:?}", other),
    }
}

#[test]
fn list_with_sizes_asks_for_the_usage() {
    let (_, requests) = drive(
        Commands::List { size: true },
        0,
        vec![
            Response::Volumes(names(&["a", "vsnap-1700000000-db1", "vsnap-1700000001-db2"])),
            Response::Usage(vec![
                VolumeUsage { name: "vsnap-1700000001-db2".to_string(), size: Some(2048) },
                VolumeUsage { name: "a".to_string(), size: Some(1) },
            ]),
        ],
    );
    assert_eq!(trace(&requests)[..2], ["list-volumes", "usage"]);
    match requests.into_iter().last() {
        Some(Request::Finish { result: Ok(Outcome::Listing { volumes, sizes }) }) => {
            assert_eq!(volumes, names(&["vsnap-1700000000-db1", "vsnap-1700000001-db2"]));
            assert_eq!(sizes, Some(vec![None, Some(VolumeSize::Bytes(2048))]));
        }
        other => panic!("{:?}", other),
    }
}

#[test]
fn an_unexpected_response_ends_the_operation() {
    let (op, requests) = drive(create(false), 0, vec![Response::Done]);
    assert_eq!(op.step, Step::Finished);
    let error = last_error(requests);
    assert_eq!(error.kind(), ErrorKind::RuntimeError);
    assert_eq!(error.message(), UNEXPECTED_RESPONSE);
}

#[test]
fn nothing_is_asked_after_the_end() {
    let (op, requests) = drive(
        Commands::Drop { snapshot_name: "x".to_string() },
        0,
        vec![Response::Volumes(Vec::new()), Response::Done, Response::Exists(true)],
    );
    assert!(op.is_finished());
    assert_eq!(trace(&requests), vec!["list-volumes", "finish NotFound", "stop", "stop"]);
}

#[test]
fn a_volume_is_only_removed_after_an_empty_listing_of_its_containers() {
    let responses: Vec<fn() -> Response> = vec![
        || Response::Volumes(vec!["vsnap-1700000000-db1".to_string()]),
        || Response::Containers(Vec::new()),
        || Response::Containers(vec![Container { names: vec!["/c".to_string()] }]),
        || Response::Exists(true),
        || Response::Exists(false),
        || Response::Answer(true),
        || Response::Answer(false),
        || Response::Done,
        || Response::Worker(Report { failure: None, cleanup: None }),
        || Response::Failed("x".to_string()),
    ];
    let commands: Vec<fn() -> Commands> = vec![
        || Commands::Restore {
            drop: true,
            snapshot_name: "db1".to_string(),
            restore_volume_name: "data2".to_string(),
        },
        || Commands::Drop { snapshot_name: "db1".to_string() },
        || Commands::Create {
            compress: false,
            source_volume_name: "data".to_string(),
            snapshot_name: "db2".to_string(),
        },
    ];
    let n = responses.len();
    let mut removals = 0;
    for command in &commands {
        let mut choice = vec![0usize; 6];
        loop {
            let chosen: Vec<Response> = choice.iter().map(|i| responses[*i]()).collect();
            let given: Vec<usize> = choice.clone();
            let (_, requests) = drive(command(), 1700000001, chosen);
            for (i, request) in requests.iter().enumerate() {
                if let Request::RemoveVolume { volume } = request {
                    removals += 1;
                    assert!(i >= 2);
                    assert_eq!(given[i - 1], 1);
                    match &requests[i - 1] {
                        Request::ListContainers { volume: asked } => assert_eq!(asked, volume),
                        other => panic!("{:?}", other),
                    }
                }
            }
            let mut k = 0;
            while k < choice.len() {
                choice[k] += 1;
                if choice[k] < n {
                    break;
                }
                choice[k] = 0;
                k += 1;
            }
            if k == choice.len() {
                break;
            }
        }
    }
    assert!(removals > 0);
}

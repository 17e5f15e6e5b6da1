//! The four operations on snapshots (create, list, restore, drop), each as
//! a machine that decides the next request to the container runtime from
//! the response to the previous one.
//!
//! The caller performs each [`Request`] and hands what came of it to
//! [`Operation::step`] as a [`Response`], until the request is
//! [`Request::Finish`]. The machine never asks for the removal of a volume
//! but right after the runtime has listed no container that refers to it.
//!
//! Restoring into a volume that is there already needs the user's word:
//! the machine asks for it with [`Request::Confirm`]. With a yes, the
//! volume is dropped and made anew. With a no, it is left as it is and the
//! operation goes on to ask the runtime to create it, whose answer decides.

use vstd::prelude::*;
use crate::discovery::{
    find_snapshot_volume_names,
    get_volume_sizes_for_volume_names,
    resolve_by_name,
    resolved,
    size_in,
    snapshot_volumes,
    users_of,
    verify_snapshot_does_not_exist,
    verify_volume_exists,
    verify_volume_not_in_use,
    volumes_of,
    Container,
    VolumeSize,
    VolumeUsage,
};
use crate::error::{Error, ErrorView};
use crate::invocation::{
    restore_invocation,
    restore_snapshot,
    snapshot,
    snapshot_invocation,
    Invocation,
    InvocationView,
};
use crate::naming::{get_snapshot_volume_name, volume_name, SNAPSHOT_PREFIX};
use crate::text::owned;
use crate::worker::Report;

verus! {

/// What the user asks for.
#[derive(Debug)]
pub enum Commands {
    /// Take a snapshot of a volume.
    Create { compress: bool, source_volume_name: String, snapshot_name: String },
    /// List the snapshots, with their sizes when `size` is set.
    List { size: bool },
    /// Restore a snapshot into a volume, and drop the snapshot afterwards
    /// when `drop` is set.
    Restore { drop: bool, snapshot_name: String, restore_volume_name: String },
    /// Drop a snapshot.
    Drop { snapshot_name: String },
}

/// The command line, parsed.
#[derive(Debug)]
pub struct Cli {
    pub command: Commands,
}

/// [`Commands`] with its strings as sequences of characters.
pub enum CommandsView {
    Create { compress: bool, source_volume_name: Seq<char>, snapshot_name: Seq<char> },
    List { size: bool },
    Restore { drop: bool, snapshot_name: Seq<char>, restore_volume_name: Seq<char> },
    Drop { snapshot_name: Seq<char> },
}

impl DeepView for Commands {
    type V = CommandsView;

    open spec fn deep_view(&self) -> CommandsView {
        match self {
            Commands::Create { compress, source_volume_name, snapshot_name } => CommandsView::Create {
                compress: *compress,
                source_volume_name: source_volume_name@,
                snapshot_name: snapshot_name@,
            },
            Commands::List { size } => CommandsView::List { size: *size },
            Commands::Restore { drop, snapshot_name, restore_volume_name } => CommandsView::Restore {
                drop: *drop,
                snapshot_name: snapshot_name@,
                restore_volume_name: restore_volume_name@,
            },
            Commands::Drop { snapshot_name } => CommandsView::Drop { snapshot_name: snapshot_name@ },
        }
    }
}

/// What an operation is waiting for.
#[derive(Clone, Copy, PartialEq, Eq, Structural, Debug)]
pub enum Step {
    /// Create: the volumes, to see that the snapshot's name is free.
    ListForCreate,
    /// Create: the containers that refer to the source volume.
    CheckSourceUse,
    /// Create: whether the source volume is there.
    CheckSourceExists,
    /// Create: the creation of the snapshot volume.
    CreateSnapshotVolume,
    /// Create: the end of the worker that takes the snapshot.
    RunSnapshot,
    /// Restore: the volumes, to find the snapshot's.
    ListForRestore,
    /// Restore: whether the volume to restore into is there.
    InspectTarget,
    /// Restore: the user's word on dropping the volume to restore into.
    ConfirmDrop,
    /// Restore: the containers that refer to the volume to restore into.
    CheckTargetUse,
    /// Restore: the removal of the volume to restore into.
    RemoveTarget,
    /// Restore: the creation of the volume to restore into.
    CreateTarget,
    /// Restore: the end of the worker that restores.
    RunRestore,
    /// Restore and drop: the containers that refer to the snapshot volume.
    CheckSnapshotUse,
    /// Restore and drop: the removal of the snapshot volume.
    RemoveSnapshot,
    /// Drop: the volumes, to find the snapshot's.
    ListForDrop,
    /// List: the volumes.
    ListForList,
    /// List: the room that the volumes take.
    QuerySizes,
    /// Nothing: the operation is over.
    Finished,
}

/// What the caller hands back after a request.
#[derive(Debug)]
pub enum Response {
    /// The names of the volumes that the runtime lists.
    Volumes(Vec<String>),
    /// The containers that refer to the volume asked about.
    Containers(Vec<Container>),
    /// Whether the volume asked about is there.
    Exists(bool),
    /// The user's answer.
    Answer(bool),
    /// The request succeeded and has nothing to tell.
    Done,
    /// How the run of the worker ended.
    Worker(Report),
    /// The room that the runtime says the volumes take.
    Usage(Vec<VolumeUsage>),
    /// The request failed, with the runtime's words.
    Failed(String),
}

/// [`Response`] with its strings as sequences of characters.
pub enum ResponseView {
    Volumes(Seq<Seq<char>>),
    Containers(Seq<Seq<Seq<char>>>),
    Exists(bool),
    Answer(bool),
    Done,
    Worker(Report),
    Usage(Seq<(Seq<char>, Option<i64>)>),
    Failed(Seq<char>),
}

impl DeepView for Response {
    type V = ResponseView;

    open spec fn deep_view(&self) -> ResponseView {
        match self {
            Response::Volumes(listed) => ResponseView::Volumes(listed.deep_view()),
            Response::Containers(containers) => ResponseView::Containers(containers.deep_view()),
            Response::Exists(exists) => ResponseView::Exists(*exists),
            Response::Answer(yes) => ResponseView::Answer(*yes),
            Response::Done => ResponseView::Done,
            Response::Worker(report) => ResponseView::Worker(*report),
            Response::Usage(usage) => ResponseView::Usage(usage.deep_view()),
            Response::Failed(message) => ResponseView::Failed(message@),
        }
    }
}

/// What an operation gives when it succeeds.
#[derive(Debug)]
pub enum Outcome {
    /// The operation is done.
    Done,
    /// The snapshot volumes, in the order in which the runtime listed
    /// them, and for each its size where sizes were asked for.
    Listing { volumes: Vec<String>, sizes: Option<Vec<Option<VolumeSize>>> },
}

/// [`Outcome`] with its strings as sequences of characters.
pub enum OutcomeView {
    Done,
    Listing { volumes: Seq<Seq<char>>, sizes: Option<Seq<Option<VolumeSize>>> },
}

impl DeepView for Outcome {
    type V = OutcomeView;

    open spec fn deep_view(&self) -> OutcomeView {
        match self {
            Outcome::Done => OutcomeView::Done,
            Outcome::Listing { volumes, sizes } => OutcomeView::Listing {
                volumes: volumes.deep_view(),
                sizes: match sizes {
                    Some(s) => Some(s@),
                    None => None,
                },
            },
        }
    }
}

/// What the caller is to do next.
#[derive(Debug)]
pub enum Request {
    /// List the volumes; answer with [`Response::Volumes`].
    ListVolumes,
    /// List the containers that refer to `volume`, running or not; answer
    /// with [`Response::Containers`].
    ListContainers { volume: String },
    /// Tell whether `volume` is there; answer with [`Response::Exists`].
    InspectVolume { volume: String },
    /// Ask the user whether the volume to restore into may be dropped;
    /// answer with [`Response::Answer`].
    Confirm,
    /// Create `volume`.
    CreateVolume { volume: String },
    /// Remove `volume`.
    RemoveVolume { volume: String },
    /// Run a worker container; answer with [`Response::Worker`].
    RunWorker { invocation: Invocation },
    /// Tell the room that the volumes take; answer with
    /// [`Response::Usage`].
    QueryUsage,
    /// Return this: the operation is over.
    Finish { result: Result<Outcome, Error> },
    /// Nothing: the operation was over before this response.
    Stop,
}

/// [`Request`] with its strings as sequences of characters.
pub enum RequestView {
    ListVolumes,
    ListContainers { volume: Seq<char> },
    InspectVolume { volume: Seq<char> },
    Confirm,
    CreateVolume { volume: Seq<char> },
    RemoveVolume { volume: Seq<char> },
    RunWorker { invocation: InvocationView },
    QueryUsage,
    Finish { result: Result<OutcomeView, ErrorView> },
    Stop,
}

impl DeepView for Request {
    type V = RequestView;

    open spec fn deep_view(&self) -> RequestView {
        match self {
            Request::ListVolumes => RequestView::ListVolumes,
            Request::ListContainers { volume } => RequestView::ListContainers { volume: volume@ },
            Request::InspectVolume { volume } => RequestView::InspectVolume { volume: volume@ },
            Request::Confirm => RequestView::Confirm,
            Request::CreateVolume { volume } => RequestView::CreateVolume { volume: volume@ },
            Request::RemoveVolume { volume } => RequestView::RemoveVolume { volume: volume@ },
            Request::RunWorker { invocation } => RequestView::RunWorker {
                invocation: invocation.deep_view(),
            },
            Request::QueryUsage => RequestView::QueryUsage,
            Request::Finish { result } => RequestView::Finish {
                result: match result {
                    Ok(outcome) => Ok(outcome.deep_view()),
                    Err(e) => Err(e@),
                },
            },
            Request::Stop => RequestView::Stop,
        }
    }
}

/// The state of one operation.
#[derive(Debug)]
pub struct Operation {
    /// What the operation is waiting for.
    pub step: Step,
    /// Create: whether the worker compresses.
    pub compress: bool,
    /// Restore: whether the snapshot is dropped afterwards.
    pub drop: bool,
    /// List: whether sizes are asked for.
    pub size: bool,
    /// Create: the volume to take a snapshot of.
    pub source: String,
    /// Restore: the volume to restore into.
    pub target: String,
    /// The name of the snapshot.
    pub snapshot_name: String,
    /// The volume of the snapshot, once it is known.
    pub snapshot_volume: String,
    /// List: the snapshot volumes.
    pub found: Vec<String>,
}

/// [`Operation`] with its strings as sequences of characters.
pub struct OperationView {
    pub step: Step,
    pub compress: bool,
    pub drop: bool,
    pub size: bool,
    pub source: Seq<char>,
    pub target: Seq<char>,
    pub snapshot_name: Seq<char>,
    pub snapshot_volume: Seq<char>,
    pub found: Seq<Seq<char>>,
}

impl DeepView for Operation {
    type V = OperationView;

    open spec fn deep_view(&self) -> OperationView {
        OperationView {
            step: self.step,
            compress: self.compress,
            drop: self.drop,
            size: self.size,
            source: self.source@,
            target: self.target@,
            snapshot_name: self.snapshot_name@,
            snapshot_volume: self.snapshot_volume@,
            found: self.found.deep_view(),
        }
    }
}

/// What is said of a response that does not answer the request.
pub const UNEXPECTED_RESPONSE: &'static str = "Unexpected response from the container runtime";

/// The sizes of `volumes` according to `usage`, one for each volume.
pub open spec fn sizes_of(usage: Seq<(Seq<char>, Option<i64>)>, volumes: Seq<Seq<char>>) -> Seq<
    Option<VolumeSize>,
> {
    Seq::new(volumes.len(), |i: int| size_in(usage, volumes[i]))
}

/// The operation in its first state, and its first request.
pub open spec fn started(command: CommandsView, now: int) -> (OperationView, RequestView) {
    let blank = OperationView {
        step: Step::Finished,
        compress: false,
        drop: false,
        size: false,
        source: Seq::empty(),
        target: Seq::empty(),
        snapshot_name: Seq::empty(),
        snapshot_volume: Seq::empty(),
        found: Seq::empty(),
    };
    match command {
        CommandsView::Create { compress, source_volume_name, snapshot_name } => (
            OperationView {
                step: Step::ListForCreate,
                compress,
                source: source_volume_name,
                snapshot_name,
                snapshot_volume: volume_name(SNAPSHOT_PREFIX@, now, snapshot_name),
                ..blank
            },
            RequestView::ListVolumes,
        ),
        CommandsView::List { size } => (
            OperationView { step: Step::ListForList, size, ..blank },
            RequestView::ListVolumes,
        ),
        CommandsView::Restore { drop, snapshot_name, restore_volume_name } => (
            OperationView {
                step: Step::ListForRestore,
                drop,
                target: restore_volume_name,
                snapshot_name,
                ..blank
            },
            RequestView::ListVolumes,
        ),
        CommandsView::Drop { snapshot_name } => (
            OperationView { step: Step::ListForDrop, snapshot_name, ..blank },
            RequestView::ListVolumes,
        ),
    }
}

/// The end of an operation with `result`.
pub open spec fn finished(op: OperationView, result: Result<OutcomeView, ErrorView>) -> (
    OperationView,
    RequestView,
) {
    (OperationView { step: Step::Finished, ..op }, RequestView::Finish { result })
}

/// The end of an operation on a response that does not let it go on:
/// with the runtime's words when the request failed, and as an unexpected
/// response otherwise.
pub open spec fn failed(op: OperationView, response: ResponseView) -> (OperationView, RequestView) {
    match response {
        ResponseView::Failed(message) => finished(op, Err(ErrorView::Runtime { message })),
        _ => finished(op, Err(ErrorView::Runtime { message: UNEXPECTED_RESPONSE@ })),
    }
}

/// The step that goes on, with `go_on`, only when no container refers to
/// the volume that was asked about.
pub open spec fn unless_in_use(
    op: OperationView,
    response: ResponseView,
    go_on: (OperationView, RequestView),
) -> (OperationView, RequestView) {
    match response {
        ResponseView::Containers(containers) => if containers.len() == 0 {
            go_on
        } else {
            finished(op, Err(ErrorView::InUse { users: users_of(containers) }))
        },
        _ => failed(op, response),
    }
}

/// The transition of the machine: the state after `response` and the
/// request that it makes.
pub open spec fn next(op: OperationView, response: ResponseView) -> (OperationView, RequestView) {
    match op.step {
        Step::ListForCreate => match response {
            ResponseView::Volumes(listed) => {
                let held = volumes_of(SNAPSHOT_PREFIX@, listed, op.snapshot_name);
                if held.len() == 0 {
                    (
                        OperationView { step: Step::CheckSourceUse, ..op },
                        RequestView::ListContainers { volume: op.source },
                    )
                } else if held.len() == 1 {
                    finished(op, Err(ErrorView::AlreadyExists { snapshot_name: op.snapshot_name }))
                } else {
                    finished(op, Err(ErrorView::Ambiguous { snapshot_name: op.snapshot_name }))
                }
            },
            _ => failed(op, response),
        },
        Step::CheckSourceUse => unless_in_use(
            op,
            response,
            (
                OperationView { step: Step::CheckSourceExists, ..op },
                RequestView::InspectVolume { volume: op.source },
            ),
        ),
        Step::CheckSourceExists => match response {
            ResponseView::Exists(exists) => if exists {
                (
                    OperationView { step: Step::CreateSnapshotVolume, ..op },
                    RequestView::CreateVolume { volume: op.snapshot_volume },
                )
            } else {
                finished(op, Err(ErrorView::VolumeNotFound { volume_name: op.source }))
            },
            _ => failed(op, response),
        },
        Step::CreateSnapshotVolume => match response {
            ResponseView::Done => (
                OperationView { step: Step::RunSnapshot, ..op },
                RequestView::RunWorker {
                    invocation: snapshot_invocation(op.source, op.snapshot_volume, op.compress),
                },
            ),
            _ => failed(op, response),
        },
        Step::RunSnapshot => match response {
            ResponseView::Worker(report) => if report.failure is None && report.cleanup is None {
                finished(op, Ok(OutcomeView::Done))
            } else {
                finished(op, Err(ErrorView::Worker { report }))
            },
            _ => failed(op, response),
        },
        Step::ListForRestore => match response {
            ResponseView::Volumes(listed) => match resolved(SNAPSHOT_PREFIX@, listed, op.snapshot_name) {
                Ok(volume) => (
                    OperationView { step: Step::InspectTarget, snapshot_volume: volume, ..op },
                    RequestView::InspectVolume { volume: op.target },
                ),
                Err(e) => finished(op, Err(e)),
            },
            _ => failed(op, response),
        },
        Step::InspectTarget => match response {
            ResponseView::Exists(exists) => if exists {
                (OperationView { step: Step::ConfirmDrop, ..op }, RequestView::Confirm)
            } else {
                (
                    OperationView { step: Step::CreateTarget, ..op },
                    RequestView::CreateVolume { volume: op.target },
                )
            },
            _ => failed(op, response),
        },
        Step::ConfirmDrop => match response {
            ResponseView::Answer(yes) => if yes {
                (
                    OperationView { step: Step::CheckTargetUse, ..op },
                    RequestView::ListContainers { volume: op.target },
                )
            } else {
                (
                    OperationView { step: Step::CreateTarget, ..op },
                    RequestView::CreateVolume { volume: op.target },
                )
            },
            _ => failed(op, response),
        },
        Step::CheckTargetUse => unless_in_use(
            op,
            response,
            (OperationView { step: Step::RemoveTarget, ..op }, RequestView::RemoveVolume { volume: op.target }),
        ),
        Step::RemoveTarget => match response {
            ResponseView::Done => (
                OperationView { step: Step::CreateTarget, ..op },
                RequestView::CreateVolume { volume: op.target },
            ),
            _ => failed(op, response),
        },
        Step::CreateTarget => match response {
            ResponseView::Done => (
                OperationView { step: Step::RunRestore, ..op },
                RequestView::RunWorker { invocation: restore_invocation(op.snapshot_volume, op.target) },
            ),
            _ => failed(op, response),
        },
        Step::RunRestore => match response {
            ResponseView::Worker(report) => if report.failure is None && report.cleanup is None {
                if op.drop {
                    (
                        OperationView { step: Step::CheckSnapshotUse, ..op },
                        RequestView::ListContainers { volume: op.snapshot_volume },
                    )
                } else {
                    finished(op, Ok(OutcomeView::Done))
                }
            } else {
                finished(op, Err(ErrorView::Worker { report }))
            },
            _ => failed(op, response),
        },
        Step::CheckSnapshotUse => unless_in_use(
            op,
            response,
            (
                OperationView { step: Step::RemoveSnapshot, ..op },
                RequestView::RemoveVolume { volume: op.snapshot_volume },
            ),
        ),
        Step::RemoveSnapshot => match response {
            ResponseView::Done => finished(op, Ok(OutcomeView::Done)),
            _ => failed(op, response),
        },
        Step::ListForDrop => match response {
            ResponseView::Volumes(listed) => match resolved(SNAPSHOT_PREFIX@, listed, op.snapshot_name) {
                Ok(volume) => (
                    OperationView { step: Step::CheckSnapshotUse, snapshot_volume: volume, ..op },
                    RequestView::ListContainers { volume },
                ),
                Err(e) => finished(op, Err(e)),
            },
            _ => failed(op, response),
        },
        Step::ListForList => match response {
            ResponseView::Volumes(listed) => {
                let found = snapshot_volumes(SNAPSHOT_PREFIX@, listed);
                if op.size {
                    (OperationView { step: Step::QuerySizes, found, ..op }, RequestView::QueryUsage)
                } else {
                    finished(op, Ok(OutcomeView::Listing { volumes: found, sizes: None }))
                }
            },
            _ => failed(op, response),
        },
        Step::QuerySizes => match response {
            ResponseView::Usage(usage) => finished(
                OperationView { found: Seq::empty(), ..op },
                Ok(OutcomeView::Listing { volumes: op.found, sizes: Some(sizes_of(usage, op.found)) }),
            ),
            _ => failed(op, response),
        },
        Step::Finished => (op, RequestView::Stop),
    }
}

/// The state after `responses`, handed in order to the operation that
/// `command` began at `now`.
pub open spec fn state_after(command: CommandsView, now: int, responses: Seq<ResponseView>) -> OperationView
    decreases responses.len(),
{
    if responses.len() == 0 {
        started(command, now).0
    } else {
        next(state_after(command, now, responses.drop_last()), responses.last()).0
    }
}

/// The requests that the operation makes: the first one, then one for
/// each of `responses`.
pub open spec fn requests_after(command: CommandsView, now: int, responses: Seq<ResponseView>) -> Seq<
    RequestView,
>
    decreases responses.len(),
{
    if responses.len() == 0 {
        seq![started(command, now).1]
    } else {
        requests_after(command, now, responses.drop_last()).push(
            next(state_after(command, now, responses.drop_last()), responses.last()).1,
        )
    }
}

/// No volume is dropped while in use. The removal of a volume is only
/// ever asked for in answer to a listing of the containers that refer to
/// that very volume, and only when the listing is empty.
pub proof fn lemma_removal_follows_check(before: OperationView, first: ResponseView, second: ResponseView)
    ensures
        ({
            let (asked, question) = next(before, first);
            let (_, request) = next(asked, second);
            request matches RequestView::RemoveVolume { volume } ==> question
                == (RequestView::ListContainers { volume }) && second == ResponseView::Containers(
                Seq::empty(),
            )
        }),
{
    if let ResponseView::Containers(containers) = second {
        assert(containers.len() == 0 ==> containers =~= Seq::empty());
    }
}

/// Removals have their reasons. The volume to restore into is checked
/// for removal only after the user has said yes; the volume of a
/// snapshot is checked for removal only when the snapshot is being
/// dropped, or has been restored by a worker that ended well and is to
/// be dropped afterwards.
pub proof fn lemma_removals_are_asked_for(before: OperationView, response: ResponseView)
    ensures
        ({
            let (after, _) = next(before, response);
            &&& after.step == Step::CheckTargetUse ==> before.step == Step::ConfirmDrop && response
                == ResponseView::Answer(true)
            &&& after.step == Step::CheckSnapshotUse ==> (before.step == Step::ListForDrop && resolved(
                SNAPSHOT_PREFIX@,
                response->Volumes_0,
                before.snapshot_name,
            ) == Ok::<Seq<char>, ErrorView>(after.snapshot_volume)) || (before.step == Step::RunRestore
                && before.drop && response == ResponseView::Worker(Report { failure: None, cleanup: None }))
        }),
{
}

/// Dropping a snapshot removes its volume. When the listing holds the
/// snapshot in one volume and no container refers to that volume, the
/// operation asks for the removal of exactly that volume, and ends well
/// once it is removed.
pub proof fn lemma_drop_removes_the_snapshot_volume(
    snapshot_name: Seq<char>,
    now: int,
    listed: Seq<Seq<char>>,
    volume: Seq<char>,
)
    requires
        resolved(SNAPSHOT_PREFIX@, listed, snapshot_name) == Ok::<Seq<char>, ErrorView>(volume),
    ensures
        requests_after(
            CommandsView::Drop { snapshot_name },
            now,
            seq![ResponseView::Volumes(listed), ResponseView::Containers(Seq::empty()), ResponseView::Done],
        ) == seq![
            RequestView::ListVolumes,
            RequestView::ListContainers { volume },
            RequestView::RemoveVolume { volume },
            RequestView::Finish { result: Ok(OutcomeView::Done) },
        ],
{
    let command = CommandsView::Drop { snapshot_name };
    let three = seq![
        ResponseView::Volumes(listed),
        ResponseView::Containers(Seq::empty()),
        ResponseView::Done,
    ];
    let two = seq![ResponseView::Volumes(listed), ResponseView::Containers(Seq::empty())];
    let one = seq![ResponseView::Volumes(listed)];
    assert(three.drop_last() == two);
    assert(two.drop_last() == one);
    assert(one.drop_last().len() == 0);
    assert(state_after(command, now, one.drop_last()) == started(command, now).0);
    assert(requests_after(command, now, one.drop_last()) == seq![RequestView::ListVolumes]);
    assert(state_after(command, now, one).step == Step::CheckSnapshotUse);
    assert(requests_after(command, now, one) == seq![
        RequestView::ListVolumes,
        RequestView::ListContainers { volume },
    ]);
    assert(state_after(command, now, two).step == Step::RemoveSnapshot);
    assert(requests_after(command, now, two) == seq![
        RequestView::ListVolumes,
        RequestView::ListContainers { volume },
        RequestView::RemoveVolume { volume },
    ]);
}

/// An operation does not begin by removing a volume, nor does the second
/// request remove one.
pub proof fn lemma_no_removal_at_start(command: CommandsView, now: int, response: ResponseView)
    ensures
        !(started(command, now).1 is RemoveVolume),
        !(next(started(command, now).0, response).1 is RemoveVolume),
{
}

/// A name is given to one snapshot only. When a listed volume holds a
/// snapshot of the name that a new one is to get, creation ends at once
/// with the error that the snapshot exists already, and nothing is made.
pub proof fn lemma_create_refuses_taken_name(
    compress: bool,
    source_volume_name: Seq<char>,
    snapshot_name: Seq<char>,
    now: int,
    listed: Seq<Seq<char>>,
)
    requires
        volumes_of(SNAPSHOT_PREFIX@, listed, snapshot_name).len() == 1,
    ensures
        ({
            let command = CommandsView::Create { compress, source_volume_name, snapshot_name };
            requests_after(command, now, seq![ResponseView::Volumes(listed)]) == seq![
                RequestView::ListVolumes,
                RequestView::Finish { result: Err(ErrorView::AlreadyExists { snapshot_name }) },
            ]
        }),
{
    let command = CommandsView::Create { compress, source_volume_name, snapshot_name };
    let responses = seq![ResponseView::Volumes(listed)];
    assert(requests_after(command, now, responses.drop_last()) == seq![RequestView::ListVolumes]);
}

/// A snapshot that is not there is neither restored nor dropped. When
/// no listed volume holds a snapshot of the name, restoring and dropping
/// end at once with the error that the snapshot was not found.
pub proof fn lemma_missing_snapshot(command: CommandsView, now: int, listed: Seq<Seq<char>>)
    requires
        command is Restore || command is Drop,
        volumes_of(
            SNAPSHOT_PREFIX@,
            listed,
            match command {
                CommandsView::Restore { snapshot_name, .. } => snapshot_name,
                CommandsView::Drop { snapshot_name } => snapshot_name,
                _ => Seq::empty(),
            },
        ).len() == 0,
    ensures
        next(started(command, now).0, ResponseView::Volumes(listed)).1 == (RequestView::Finish {
            result: Err(
                ErrorView::SnapshotNotFound {
                    snapshot_name: match command {
                        CommandsView::Restore { snapshot_name, .. } => snapshot_name,
                        CommandsView::Drop { snapshot_name } => snapshot_name,
                        _ => Seq::empty(),
                    },
                },
            ),
        }),
{
}

/// Whether `step` is one of the steps of taking a snapshot, or the end.
pub open spec fn creating(step: Step) -> bool {
    step == Step::ListForCreate || step == Step::CheckSourceUse || step == Step::CheckSourceExists || step
        == Step::CreateSnapshotVolume || step == Step::RunSnapshot || step == Step::Finished
}

proof fn lemma_create_trace(
    compress: bool,
    source_volume_name: Seq<char>,
    snapshot_name: Seq<char>,
    now: int,
    responses: Seq<ResponseView>,
)
    ensures
        ({
            let command = CommandsView::Create { compress, source_volume_name, snapshot_name };
            let state = state_after(command, now, responses);
            let requests = requests_after(command, now, responses);
            &&& creating(state.step)
            &&& state.snapshot_volume == volume_name(SNAPSHOT_PREFIX@, now, snapshot_name)
            &&& state.source == source_volume_name
            &&& requests.len() == responses.len() + 1
            &&& forall|i: int|
                0 <= i < requests.len() ==> !(#[trigger] requests[i] is RemoveVolume) && (requests[i] is CreateVolume
                    ==> requests[i] == RequestView::CreateVolume {
                    volume: volume_name(SNAPSHOT_PREFIX@, now, snapshot_name),
                })
        }),
    decreases responses.len(),
{
    if responses.len() > 0 {
        lemma_create_trace(compress, source_volume_name, snapshot_name, now, responses.drop_last());
    }
}

/// Taking a snapshot makes one volume, named by the convention, and
/// removes none. Whatever the runtime answers, every volume that the
/// operation asks to create is the one named for the snapshot's name and
/// the time at which the operation began.
pub proof fn lemma_create_makes_the_named_volume(
    compress: bool,
    source_volume_name: Seq<char>,
    snapshot_name: Seq<char>,
    now: int,
    responses: Seq<ResponseView>,
    i: int,
)
    requires
        0 <= i <= responses.len(),
    ensures
        ({
            let command = CommandsView::Create { compress, source_volume_name, snapshot_name };
            let request = requests_after(command, now, responses)[i];
            &&& !(request is RemoveVolume)
            &&& request is CreateVolume ==> request == RequestView::CreateVolume {
                volume: volume_name(SNAPSHOT_PREFIX@, now, snapshot_name),
            }
        }),
{
    lemma_create_trace(compress, source_volume_name, snapshot_name, now, responses);
}

/// An operation finishes once. From the state in which it is over,
/// every response is answered by [`Request::Stop`] and changes nothing;
/// and the request that ends an operation leaves it in that state.
pub proof fn lemma_finish_is_final(op: OperationView, response: ResponseView)
    ensures
        next(op, response).1 is Finish ==> next(op, response).0.step == Step::Finished,
        op.step == Step::Finished ==> next(op, response) == (op, RequestView::Stop),
{
}

fn finish(op: Operation, result: Result<Outcome, Error>) -> (after: (Operation, Request))
    ensures
        (after.0.deep_view(), after.1.deep_view()) == finished(
            op.deep_view(),
            match result {
                Ok(outcome) => Ok(outcome.deep_view()),
                Err(e) => Err(e@),
            },
        ),
{
    let mut op = op;
    op.step = Step::Finished;
    (op, Request::Finish { result })
}

fn fail(op: Operation, response: Response) -> (after: (Operation, Request))
    ensures
        (after.0.deep_view(), after.1.deep_view()) == failed(op.deep_view(), response.deep_view()),
{
    match response {
        Response::Failed(message) => finish(op, Err(Error::Runtime { message })),
        _ => finish(op, Err(Error::Runtime { message: owned(UNEXPECTED_RESPONSE) })),
    }
}

fn go_unless_in_use(op: Operation, response: Response, step: Step, request: Request) -> (after: (
    Operation,
    Request,
))
    ensures
        (after.0.deep_view(), after.1.deep_view()) == unless_in_use(
            op.deep_view(),
            response.deep_view(),
            (OperationView { step, ..op.deep_view() }, request.deep_view()),
        ),
{
    match response {
        Response::Containers(containers) => match verify_volume_not_in_use(&containers) {
            Ok(_) => {
                let mut op = op;
                op.step = step;
                (op, request)
            },
            Err(e) => finish(op, Err(e)),
        },
        other => fail(op, other),
    }
}

impl Operation {
    /// Begins the operation that `command` asks for, at the time `now`
    /// in seconds since the epoch: the state to keep and the first
    /// request to perform.
    pub fn start(command: Commands, now: i64) -> (begun: (Operation, Request))
        ensures
            (begun.0.deep_view(), begun.1.deep_view()) == started(command.deep_view(), now as int),
    {
        let mut op = Operation {
            step: Step::Finished,
            compress: false,
            drop: false,
            size: false,
            source: String::new(),
            target: String::new(),
            snapshot_name: String::new(),
            snapshot_volume: String::new(),
            found: Vec::new(),
        };
        assert(op.found.deep_view() =~= Seq::empty());
        match command {
            Commands::Create { compress, source_volume_name, snapshot_name } => {
                op.step = Step::ListForCreate;
                op.compress = compress;
                op.snapshot_volume = get_snapshot_volume_name(now, snapshot_name.as_str());
                op.source = source_volume_name;
                op.snapshot_name = snapshot_name;
            },
            Commands::List { size } => {
                op.step = Step::ListForList;
                op.size = size;
            },
            Commands::Restore { drop, snapshot_name, restore_volume_name } => {
                op.step = Step::ListForRestore;
                op.drop = drop;
                op.target = restore_volume_name;
                op.snapshot_name = snapshot_name;
            },
            Commands::Drop { snapshot_name } => {
                op.step = Step::ListForDrop;
                op.snapshot_name = snapshot_name;
            },
        }
        (op, Request::ListVolumes)
    }

    /// Whether the operation is over.
    pub fn is_finished(&self) -> (over: bool)
        ensures
            over == (self.step == Step::Finished),
    {
        self.step == Step::Finished
    }

    /// Takes what came of the request that was last made and gives the
    /// state to keep and the request to perform next.
    pub fn step(self, response: Response) -> (after: (Operation, Request))
        ensures
            (after.0.deep_view(), after.1.deep_view()) == next(self.deep_view(), response.deep_view()),
    {
        let mut op = self;
        match op.step {
            Step::ListForCreate => match response {
                Response::Volumes(listed) => match verify_snapshot_does_not_exist(
                    &listed,
                    op.snapshot_name.as_str(),
                ) {
                    Ok(_) => {
                        op.step = Step::CheckSourceUse;
                        let volume = op.source.clone();
                        (op, Request::ListContainers { volume })
                    },
                    Err(e) => finish(op, Err(e)),
                },
                other => fail(op, other),
            },
            Step::CheckSourceUse => {
                let volume = op.source.clone();
                go_unless_in_use(op, response, Step::CheckSourceExists, Request::InspectVolume { volume })
            },
            Step::CheckSourceExists => match response {
                Response::Exists(exists) => match verify_volume_exists(exists, op.source.as_str()) {
                    Ok(_) => {
                        op.step = Step::CreateSnapshotVolume;
                        let volume = op.snapshot_volume.clone();
                        (op, Request::CreateVolume { volume })
                    },
                    Err(e) => finish(op, Err(e)),
                },
                other => fail(op, other),
            },
            Step::CreateSnapshotVolume => match response {
                Response::Done => {
                    op.step = Step::RunSnapshot;
                    let invocation = snapshot(op.source.as_str(), op.snapshot_volume.as_str(), op.compress);
                    (op, Request::RunWorker { invocation })
                },
                other => fail(op, other),
            },
            Step::RunSnapshot => match response {
                Response::Worker(report) => match report.into_result() {
                    Ok(_) => finish(op, Ok(Outcome::Done)),
                    Err(e) => finish(op, Err(e)),
                },
                other => fail(op, other),
            },
            Step::ListForRestore => match response {
                Response::Volumes(listed) => match resolve_by_name(&listed, op.snapshot_name.as_str()) {
                    Ok(volume) => {
                        op.step = Step::InspectTarget;
                        op.snapshot_volume = volume;
                        let volume = op.target.clone();
                        (op, Request::InspectVolume { volume })
                    },
                    Err(e) => finish(op, Err(e)),
                },
                other => fail(op, other),
            },
            Step::InspectTarget => match response {
                Response::Exists(exists) => if exists {
                    op.step = Step::ConfirmDrop;
                    (op, Request::Confirm)
                } else {
                    op.step = Step::CreateTarget;
                    let volume = op.target.clone();
                    (op, Request::CreateVolume { volume })
                },
                other => fail(op, other),
            },
            Step::ConfirmDrop => match response {
                Response::Answer(yes) => if yes {
                    op.step = Step::CheckTargetUse;
                    let volume = op.target.clone();
                    (op, Request::ListContainers { volume })
                } else {
                    op.step = Step::CreateTarget;
                    let volume = op.target.clone();
                    (op, Request::CreateVolume { volume })
                },
                other => fail(op, other),
            },
            Step::CheckTargetUse => {
                let volume = op.target.clone();
                go_unless_in_use(op, response, Step::RemoveTarget, Request::RemoveVolume { volume })
            },
            Step::RemoveTarget => match response {
                Response::Done => {
                    op.step = Step::CreateTarget;
                    let volume = op.target.clone();
                    (op, Request::CreateVolume { volume })
                },
                other => fail(op, other),
            },
            Step::CreateTarget => match response {
                Response::Done => {
                    op.step = Step::RunRestore;
                    let invocation = restore_snapshot(op.snapshot_volume.as_str(), op.target.as_str());
                    (op, Request::RunWorker { invocation })
                },
                other => fail(op, other),
            },
            Step::RunRestore => match response {
                Response::Worker(report) => match report.into_result() {
                    Ok(_) => if op.drop {
                        op.step = Step::CheckSnapshotUse;
                        let volume = op.snapshot_volume.clone();
                        (op, Request::ListContainers { volume })
                    } else {
                        finish(op, Ok(Outcome::Done))
                    },
                    Err(e) => finish(op, Err(e)),
                },
                other => fail(op, other),
            },
            Step::CheckSnapshotUse => {
                let volume = op.snapshot_volume.clone();
                go_unless_in_use(op, response, Step::RemoveSnapshot, Request::RemoveVolume { volume })
            },
            Step::RemoveSnapshot => match response {
                Response::Done => finish(op, Ok(Outcome::Done)),
                other => fail(op, other),
            },
            Step::ListForDrop => match response {
                Response::Volumes(listed) => match resolve_by_name(&listed, op.snapshot_name.as_str()) {
                    Ok(volume) => {
                        op.step = Step::CheckSnapshotUse;
                        op.snapshot_volume = volume.clone();
                        (op, Request::ListContainers { volume })
                    },
                    Err(e) => finish(op, Err(e)),
                },
                other => fail(op, other),
            },
            Step::ListForList => match response {
                Response::Volumes(listed) => {
                    let found = find_snapshot_volume_names(&listed);
                    if op.size {
                        op.step = Step::QuerySizes;
                        op.found = found;
                        (op, Request::QueryUsage)
                    } else {
                        finish(op, Ok(Outcome::Listing { volumes: found, sizes: None }))
                    }
                },
                other => fail(op, other),
            },
            Step::QuerySizes => match response {
                Response::Usage(usage) => {
                    let sizes = get_volume_sizes_for_volume_names(&usage, &op.found);
                    proof {
                        assert(sizes@ =~= sizes_of(usage.deep_view(), op.found.deep_view()));
                    }
                    let mut volumes: Vec<String> = Vec::new();
                    volumes.append(&mut op.found);
                    proof {
                        assert(op.found.deep_view() =~= Seq::empty());
                    }
                    finish(op, Ok(Outcome::Listing { volumes, sizes: Some(sizes) }))
                },
                other => fail(op, other),
            },
            Step::Finished => (op, Request::Stop),
        }
    }
}

} // verus!

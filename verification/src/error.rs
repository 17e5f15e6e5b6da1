//! What can go wrong in a snapshot operation, and how it is told.

use vstd::prelude::*;
use crate::text::{joined, push_joined, push_signed_decimal, push_str, signed_decimal, string_of};
use crate::worker::{Failure, Report, Stage};

verus! {

/// The kinds of failure.
#[derive(Clone, Copy, PartialEq, Eq, Structural, Debug)]
pub enum ErrorKind {
    /// A volume or a snapshot is not there.
    NotFound,
    /// A snapshot of that name is there already.
    AlreadyExists,
    /// A container refers to the volume.
    InUse,
    /// Several volumes hold a snapshot of that name.
    Ambiguous,
    /// The worker could not archive or restore.
    ArchiveError,
    /// The container runtime failed.
    RuntimeError,
}

/// A failure of a snapshot operation.
#[derive(Debug)]
pub enum Error {
    /// No volume holds a snapshot of this name.
    SnapshotNotFound { snapshot_name: String },
    /// There is no volume of this name.
    VolumeNotFound { volume_name: String },
    /// A volume holds a snapshot of this name already.
    AlreadyExists { snapshot_name: String },
    /// Containers refer to the volume; `users` names those that have a name.
    InUse { users: Vec<String> },
    /// More than one volume holds a snapshot of this name.
    Ambiguous { snapshot_name: String },
    /// The run of the worker container did not end well.
    Worker { report: Report },
    /// A request to the container runtime failed, with the runtime's words.
    Runtime { message: String },
}

/// What an [`Error`] is, with its strings as sequences of characters.
pub enum ErrorView {
    SnapshotNotFound { snapshot_name: Seq<char> },
    VolumeNotFound { volume_name: Seq<char> },
    AlreadyExists { snapshot_name: Seq<char> },
    InUse { users: Seq<Seq<char>> },
    Ambiguous { snapshot_name: Seq<char> },
    Worker { report: Report },
    Runtime { message: Seq<char> },
}

impl View for Error {
    type V = ErrorView;

    open spec fn view(&self) -> ErrorView {
        match self {
            Error::SnapshotNotFound { snapshot_name } => ErrorView::SnapshotNotFound {
                snapshot_name: snapshot_name@,
            },
            Error::VolumeNotFound { volume_name } => ErrorView::VolumeNotFound { volume_name: volume_name@ },
            Error::AlreadyExists { snapshot_name } => ErrorView::AlreadyExists {
                snapshot_name: snapshot_name@,
            },
            Error::InUse { users } => ErrorView::InUse { users: users.deep_view() },
            Error::Ambiguous { snapshot_name } => ErrorView::Ambiguous { snapshot_name: snapshot_name@ },
            Error::Worker { report } => ErrorView::Worker { report: *report },
            Error::Runtime { message } => ErrorView::Runtime { message: message@ },
        }
    }
}

/// The kind of the failure `e`.
pub open spec fn kind_of(e: ErrorView) -> ErrorKind {
    match e {
        ErrorView::SnapshotNotFound { .. } => ErrorKind::NotFound,
        ErrorView::VolumeNotFound { .. } => ErrorKind::NotFound,
        ErrorView::AlreadyExists { .. } => ErrorKind::AlreadyExists,
        ErrorView::InUse { .. } => ErrorKind::InUse,
        ErrorView::Ambiguous { .. } => ErrorKind::Ambiguous,
        ErrorView::Worker { report } => match report.failure {
            Some(Failure::WorkerFailed { .. }) => ErrorKind::ArchiveError,
            _ => ErrorKind::RuntimeError,
        },
        ErrorView::Runtime { .. } => ErrorKind::RuntimeError,
    }
}

/// What the run was doing at `stage`.
pub open spec fn stage_text(stage: Stage) -> Seq<char> {
    match stage {
        Stage::CheckImage => "Inspecting the worker image"@,
        Stage::PullImage => "Pulling the worker image"@,
        Stage::Create => "Creating the worker container"@,
        Stage::Start => "Starting the worker container"@,
        Stage::Run => "Running the worker container"@,
        Stage::Remove => "Removing the worker container"@,
        Stage::Done => "Finishing"@,
    }
}

/// The words for one failure of a run.
pub open spec fn failure_text(failure: Failure) -> Seq<char> {
    match failure {
        Failure::WorkerFailed { exit_code } => "Worker exited with status "@ + signed_decimal(
            exit_code as int,
        ),
        Failure::Orchestration { stage, message } => match message {
            Some(m) => stage_text(stage) + " failed: "@ + m@,
            None => stage_text(stage) + " failed"@,
        },
    }
}

/// The words for the end of a run: those of the first failure, followed
/// by those of the cleanup failure where there is one too.
pub open spec fn report_text(report: Report) -> Seq<char> {
    match (report.failure, report.cleanup) {
        (Some(f), Some(c)) => failure_text(f) + " (cleanup failed too: "@ + failure_text(c) + ")"@,
        (Some(f), None) => failure_text(f),
        (None, Some(c)) => failure_text(c),
        (None, None) => "Worker finished"@,
    }
}

/// The words for the failure `e`.
pub open spec fn message_of(e: ErrorView) -> Seq<char> {
    match e {
        ErrorView::SnapshotNotFound { snapshot_name } => "Snapshot "@ + snapshot_name + " not found"@,
        ErrorView::VolumeNotFound { volume_name } => "Volume does not exist: "@ + volume_name,
        ErrorView::AlreadyExists { snapshot_name } => "Snapshot already exists: "@ + snapshot_name,
        ErrorView::InUse { users } => "Volume is in use by "@ + joined(users, ", "@),
        ErrorView::Ambiguous { snapshot_name } => "More than one snapshot with the same name: "@
            + snapshot_name,
        ErrorView::Worker { report } => report_text(report),
        ErrorView::Runtime { message } => message,
    }
}

fn stage_words(stage: Stage) -> (words: &'static str)
    ensures
        words@ == stage_text(stage),
{
    match stage {
        Stage::CheckImage => "Inspecting the worker image",
        Stage::PullImage => "Pulling the worker image",
        Stage::Create => "Creating the worker container",
        Stage::Start => "Starting the worker container",
        Stage::Run => "Running the worker container",
        Stage::Remove => "Removing the worker container",
        Stage::Done => "Finishing",
    }
}

fn push_failure(out: &mut Vec<char>, failure: &Failure)
    ensures
        final(out)@ == old(out)@ + failure_text(*failure),
{
    match failure {
        Failure::WorkerFailed { exit_code } => {
            push_str(out, "Worker exited with status ");
            push_signed_decimal(out, *exit_code);
        },
        Failure::Orchestration { stage, message } => {
            push_str(out, stage_words(*stage));
            match message {
                Some(m) => {
                    push_str(out, " failed: ");
                    push_str(out, m.as_str());
                },
                None => {
                    push_str(out, " failed");
                },
            }
        },
    }
}

impl Report {
    /// Whether the run went well from its first request to the removal of
    /// the container.
    pub fn is_clean(&self) -> (clean: bool)
        ensures
            clean == (self.failure is None && self.cleanup is None),
    {
        self.failure.is_none() && self.cleanup.is_none()
    }

    /// The end of the run in words.
    pub fn message(&self) -> (text: String)
        ensures
            text@ == report_text(*self),
    {
        let mut out: Vec<char> = Vec::new();
        match (&self.failure, &self.cleanup) {
            (Some(f), Some(c)) => {
                push_failure(&mut out, f);
                push_str(&mut out, " (cleanup failed too: ");
                push_failure(&mut out, c);
                push_str(&mut out, ")");
            },
            (Some(f), None) => {
                push_failure(&mut out, f);
            },
            (None, Some(c)) => {
                push_failure(&mut out, c);
            },
            (None, None) => {
                push_str(&mut out, "Worker finished");
            },
        }
        string_of(&out)
    }

    /// The run as a result: success when nothing failed, the report as
    /// an error otherwise.
    pub fn into_result(self) -> (result: Result<(), Error>)
        ensures
            result is Ok <==> self.failure is None && self.cleanup is None,
            result matches Err(e) ==> e == (Error::Worker { report: self }),
    {
        if self.is_clean() {
            Ok(())
        } else {
            Err(Error::Worker { report: self })
        }
    }
}

impl Error {
    /// The kind of this failure.
    pub fn kind(&self) -> (kind: ErrorKind)
        ensures
            kind == kind_of(self@),
    {
        match self {
            Error::SnapshotNotFound { .. } => ErrorKind::NotFound,
            Error::VolumeNotFound { .. } => ErrorKind::NotFound,
            Error::AlreadyExists { .. } => ErrorKind::AlreadyExists,
            Error::InUse { .. } => ErrorKind::InUse,
            Error::Ambiguous { .. } => ErrorKind::Ambiguous,
            Error::Worker { report } => match &report.failure {
                Some(Failure::WorkerFailed { .. }) => ErrorKind::ArchiveError,
                _ => ErrorKind::RuntimeError,
            },
            Error::Runtime { .. } => ErrorKind::RuntimeError,
        }
    }

    /// This failure in words.
    pub fn message(&self) -> (text: String)
        ensures
            text@ == message_of(self@),
    {
        let mut out: Vec<char> = Vec::new();
        match self {
            Error::SnapshotNotFound { snapshot_name } => {
                push_str(&mut out, "Snapshot ");
                push_str(&mut out, snapshot_name.as_str());
                push_str(&mut out, " not found");
            },
            Error::VolumeNotFound { volume_name } => {
                push_str(&mut out, "Volume does not exist: ");
                push_str(&mut out, volume_name.as_str());
            },
            Error::AlreadyExists { snapshot_name } => {
                push_str(&mut out, "Snapshot already exists: ");
                push_str(&mut out, snapshot_name.as_str());
            },
            Error::InUse { users } => {
                push_str(&mut out, "Volume is in use by ");
                push_joined(&mut out, users, ", ");
            },
            Error::Ambiguous { snapshot_name } => {
                push_str(&mut out, "More than one snapshot with the same name: ");
                push_str(&mut out, snapshot_name.as_str());
            },
            Error::Worker { report } => {
                return report.message();
            },
            Error::Runtime { message } => {
                push_str(&mut out, message.as_str());
            },
        }
        string_of(&out)
    }
}

} // verus!

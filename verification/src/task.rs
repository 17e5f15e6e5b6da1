//! The worker's two tasks, taking a snapshot and restoring one, each as a
//! machine that decides the next thing to do on the disk from what came
//! of the last.
//!
//! The caller performs each [`Order`] and hands what came of it to
//! [`Task::step`] as an [`Answer`], until the order is [`Order::Finish`].
//! A snapshot's metadata is written before its archive, so that the total
//! of the progress is known wherever there is an archive; nothing is
//! restored from a snapshot whose metadata cannot be read; and a task that
//! ends well has written, as its last record, the one that counts the
//! whole total.

use vstd::prelude::*;
use crate::archive::{
    archive_file,
    calculate_total_size,
    format_for,
    format_of,
    join_path,
    lemma_total_size_grows,
    path_in,
    total_size,
    ArchiveFormat,
    Commands,
    Entry,
    SNAPSHOT_TAR,
    SNAPSHOT_TAR_ZST,
};
use crate::metadata::{SnapshotMetadata, SNAPSHOT_METADATA};
use crate::text::owned;
use crate::progress::{Progress, LINE_FEED};
use crate::wire::{ascii, encode_progress_line, metadata_in, metadata_json, progress_json};

verus! {

/// [`Commands`] with its strings as sequences of characters.
pub enum CommandsView {
    Snapshot { compress: bool, source_path: Seq<char>, snapshot_path: Seq<char> },
    Restore { snapshot_path: Seq<char>, restore_path: Seq<char> },
}

impl DeepView for Commands {
    type V = CommandsView;

    open spec fn deep_view(&self) -> CommandsView {
        match self {
            Commands::Snapshot { compress, source_path, snapshot_path } => CommandsView::Snapshot {
                compress: *compress,
                source_path: source_path@,
                snapshot_path: snapshot_path@,
            },
            Commands::Restore { snapshot_path, restore_path } => CommandsView::Restore {
                snapshot_path: snapshot_path@,
                restore_path: restore_path@,
            },
        }
    }
}

/// What a task is waiting for.
#[derive(Clone, Copy, PartialEq, Eq, Structural, Debug)]
pub enum Phase {
    /// Snapshot: the entries of the source tree.
    Walk,
    /// Snapshot: the writing of the metadata file.
    WriteMetadata,
    /// Snapshot: the archiving of the source tree.
    Archive,
    /// Restore: the content of the metadata file.
    ReadMetadata,
    /// Restore: whether the file of a compressed archive is there.
    Probe,
    /// Restore: the extraction of the archive.
    Extract,
    /// The writing of the record that tells that all is done.
    Report,
    /// Nothing: the task is over.
    Finished,
}

/// What came of an order.
#[derive(Debug)]
pub enum Answer {
    /// What the walk of the tree found.
    Entries(Vec<Entry>),
    /// The content of the file.
    Content(Vec<u8>),
    /// Whether the file is there.
    Exists(bool),
    /// The order was carried out and has nothing to tell.
    Done,
    /// The order failed, with the system's words.
    Failed(String),
}

/// [`Answer`] with its strings as sequences of characters.
pub enum AnswerView {
    Entries(Seq<Entry>),
    Content(Seq<u8>),
    Exists(bool),
    Done,
    Failed(Seq<char>),
}

impl DeepView for Answer {
    type V = AnswerView;

    open spec fn deep_view(&self) -> AnswerView {
        match self {
            Answer::Entries(entries) => AnswerView::Entries(entries@),
            Answer::Content(content) => AnswerView::Content(content@),
            Answer::Exists(exists) => AnswerView::Exists(*exists),
            Answer::Done => AnswerView::Done,
            Answer::Failed(message) => AnswerView::Failed(message@),
        }
    }
}

/// What is said of files too large to count.
pub const TOTAL_SIZE_OVERFLOW: &'static str = "The files are too large together to tell their size";

/// What is said of metadata that cannot be understood.
pub const MALFORMED_METADATA: &'static str = "The metadata of the snapshot cannot be understood";

/// What is said of an answer that does not answer the order.
pub const UNEXPECTED_ANSWER: &'static str = "Unexpected answer to an order";

/// Why a task did not succeed.
#[derive(Debug)]
pub enum TaskError {
    /// The files are larger together than a size can tell.
    TotalSizeOverflow,
    /// The metadata of the snapshot could not be understood.
    MalformedMetadata,
    /// An order failed, with the system's words.
    Failed { message: String },
    /// An answer did not answer the order.
    Unexpected,
}

/// [`TaskError`] with its strings as sequences of characters.
pub enum TaskErrorView {
    TotalSizeOverflow,
    MalformedMetadata,
    Failed { message: Seq<char> },
    Unexpected,
}

impl DeepView for TaskError {
    type V = TaskErrorView;

    open spec fn deep_view(&self) -> TaskErrorView {
        match self {
            TaskError::TotalSizeOverflow => TaskErrorView::TotalSizeOverflow,
            TaskError::MalformedMetadata => TaskErrorView::MalformedMetadata,
            TaskError::Failed { message } => TaskErrorView::Failed { message: message@ },
            TaskError::Unexpected => TaskErrorView::Unexpected,
        }
    }
}

/// The words for the failure `e`.
pub open spec fn task_error_text(e: TaskErrorView) -> Seq<char> {
    match e {
        TaskErrorView::TotalSizeOverflow => TOTAL_SIZE_OVERFLOW@,
        TaskErrorView::MalformedMetadata => MALFORMED_METADATA@,
        TaskErrorView::Failed { message } => message,
        TaskErrorView::Unexpected => UNEXPECTED_ANSWER@,
    }
}

impl TaskError {
    /// This failure in words.
    pub fn message(&self) -> (text: String)
        ensures
            text@ == task_error_text(self.deep_view()),
    {
        match self {
            TaskError::TotalSizeOverflow => owned(TOTAL_SIZE_OVERFLOW),
            TaskError::MalformedMetadata => owned(MALFORMED_METADATA),
            TaskError::Failed { message } => message.clone(),
            TaskError::Unexpected => owned(UNEXPECTED_ANSWER),
        }
    }
}

/// What the caller is to do next.
#[derive(Debug)]
pub enum Order {
    /// Walk the tree under `path` without following links; answer with
    /// [`Answer::Entries`].
    Walk { path: String },
    /// Write `content` to the file at `path`.
    WriteFile { path: String, content: Vec<u8> },
    /// Archive the tree under `source_path` into the file at
    /// `archive_path`, in the form `format`, and report progress out of
    /// `total_size`.
    Archive { source_path: String, archive_path: String, format: ArchiveFormat, total_size: u64 },
    /// Read the file at `path`; answer with [`Answer::Content`].
    ReadFile { path: String },
    /// Tell whether there is a file at `path`; answer with
    /// [`Answer::Exists`].
    Probe { path: String },
    /// Extract the archive in the file at `archive_path`, of the form
    /// `format`, into the directory `restore_path`, and report progress
    /// out of `total_size`.
    Extract { archive_path: String, restore_path: String, format: ArchiveFormat, total_size: u64 },
    /// Write `line` to the standard output, after every record that the
    /// archiving or the extraction has given rise to: it carries the
    /// record that counts the whole total.
    Report { line: Vec<u8> },
    /// Return this: the task is over.
    Finish { result: Result<(), TaskError> },
    /// Nothing: the task was over before this answer.
    Stop,
}

/// [`Order`] with its strings as sequences of characters.
pub enum OrderView {
    Walk { path: Seq<char> },
    WriteFile { path: Seq<char>, content: Seq<u8> },
    Archive { source_path: Seq<char>, archive_path: Seq<char>, format: ArchiveFormat, total_size: u64 },
    ReadFile { path: Seq<char> },
    Probe { path: Seq<char> },
    Extract { archive_path: Seq<char>, restore_path: Seq<char>, format: ArchiveFormat, total_size: u64 },
    Report { line: Seq<u8> },
    Finish { result: Result<(), TaskErrorView> },
    Stop,
}

impl DeepView for Order {
    type V = OrderView;

    open spec fn deep_view(&self) -> OrderView {
        match self {
            Order::Walk { path } => OrderView::Walk { path: path@ },
            Order::WriteFile { path, content } => OrderView::WriteFile { path: path@, content: content@ },
            Order::Archive { source_path, archive_path, format, total_size } => OrderView::Archive {
                source_path: source_path@,
                archive_path: archive_path@,
                format: *format,
                total_size: *total_size,
            },
            Order::ReadFile { path } => OrderView::ReadFile { path: path@ },
            Order::Probe { path } => OrderView::Probe { path: path@ },
            Order::Extract { archive_path, restore_path, format, total_size } => OrderView::Extract {
                archive_path: archive_path@,
                restore_path: restore_path@,
                format: *format,
                total_size: *total_size,
            },
            Order::Report { line } => OrderView::Report { line: line@ },
            Order::Finish { result } => OrderView::Finish {
                result: match result {
                    Ok(_) => Ok(()),
                    Err(e) => Err(e.deep_view()),
                },
            },
            Order::Stop => OrderView::Stop,
        }
    }
}

/// The state of one task.
#[derive(Debug)]
pub struct Task {
    /// What the task is waiting for.
    pub phase: Phase,
    /// Snapshot: whether the archive is compressed.
    pub compress: bool,
    /// Snapshot: the tree to archive.
    pub source_path: String,
    /// The directory of the snapshot.
    pub snapshot_path: String,
    /// Restore: the directory to restore into.
    pub restore_path: String,
    /// The total of the progress, once it is known.
    pub total_size: u64,
}

/// [`Task`] with its strings as sequences of characters.
pub struct TaskView {
    pub phase: Phase,
    pub compress: bool,
    pub source_path: Seq<char>,
    pub snapshot_path: Seq<char>,
    pub restore_path: Seq<char>,
    pub total_size: u64,
}

impl DeepView for Task {
    type V = TaskView;

    open spec fn deep_view(&self) -> TaskView {
        TaskView {
            phase: self.phase,
            compress: self.compress,
            source_path: self.source_path@,
            snapshot_path: self.snapshot_path@,
            restore_path: self.restore_path@,
            total_size: self.total_size,
        }
    }
}

/// The name of the file that holds an archive of the form `format`.
pub open spec fn archive_name(format: ArchiveFormat) -> Seq<char> {
    match format {
        ArchiveFormat::Tar => SNAPSHOT_TAR@,
        ArchiveFormat::TarZst => SNAPSHOT_TAR_ZST@,
    }
}

/// The task in its first state, and its first order.
pub open spec fn begun(command: CommandsView) -> (TaskView, OrderView) {
    match command {
        CommandsView::Snapshot { compress, source_path, snapshot_path } => (
            TaskView {
                phase: Phase::Walk,
                compress,
                source_path,
                snapshot_path,
                restore_path: Seq::empty(),
                total_size: 0,
            },
            OrderView::Walk { path: source_path },
        ),
        CommandsView::Restore { snapshot_path, restore_path } => (
            TaskView {
                phase: Phase::ReadMetadata,
                compress: false,
                source_path: Seq::empty(),
                snapshot_path,
                restore_path,
                total_size: 0,
            },
            OrderView::ReadFile { path: path_in(snapshot_path, SNAPSHOT_METADATA@) },
        ),
    }
}

/// The end of a task with `result`.
pub open spec fn ended(task: TaskView, result: Result<(), TaskErrorView>) -> (TaskView, OrderView) {
    (TaskView { phase: Phase::Finished, ..task }, OrderView::Finish { result })
}

/// The end of a task on an answer that does not let it go on: with the
/// system's words when the order failed, and as unexpected otherwise.
pub open spec fn broken(task: TaskView, answer: AnswerView) -> (TaskView, OrderView) {
    match answer {
        AnswerView::Failed(message) => ended(task, Err(TaskErrorView::Failed { message })),
        _ => ended(task, Err(TaskErrorView::Unexpected)),
    }
}

/// The line that tells that all of `total_size` is done.
pub open spec fn completion_line(total_size: u64) -> Seq<u8> {
    ascii(progress_json(Progress { progress: total_size, total: total_size })).push(LINE_FEED)
}

/// The step after the archiving or the extraction has ended well: the
/// record that counts the whole total is to be written.
pub open spec fn reported(task: TaskView) -> (TaskView, OrderView) {
    (TaskView { phase: Phase::Report, ..task }, OrderView::Report { line: completion_line(task.total_size) })
}

/// The transition of the machine: the state after `answer` and the order
/// that it gives.
pub open spec fn next(task: TaskView, answer: AnswerView) -> (TaskView, OrderView) {
    match task.phase {
        Phase::Walk => match answer {
            AnswerView::Entries(entries) => if total_size(entries) <= u64::MAX {
                let total = total_size(entries) as u64;
                (
                    TaskView { phase: Phase::WriteMetadata, total_size: total, ..task },
                    OrderView::WriteFile {
                        path: path_in(task.snapshot_path, SNAPSHOT_METADATA@),
                        content: ascii(metadata_json(total)),
                    },
                )
            } else {
                ended(task, Err(TaskErrorView::TotalSizeOverflow))
            },
            _ => broken(task, answer),
        },
        Phase::WriteMetadata => match answer {
            AnswerView::Done => (
                TaskView { phase: Phase::Archive, ..task },
                OrderView::Archive {
                    source_path: task.source_path,
                    archive_path: path_in(task.snapshot_path, archive_name(format_of(task.compress))),
                    format: format_of(task.compress),
                    total_size: task.total_size,
                },
            ),
            _ => broken(task, answer),
        },
        Phase::Archive => match answer {
            AnswerView::Done => reported(task),
            _ => broken(task, answer),
        },
        Phase::ReadMetadata => match answer {
            AnswerView::Content(content) => match metadata_in(content) {
                Some(total) => (
                    TaskView { phase: Phase::Probe, total_size: total, ..task },
                    OrderView::Probe { path: path_in(task.snapshot_path, SNAPSHOT_TAR_ZST@) },
                ),
                None => ended(task, Err(TaskErrorView::MalformedMetadata)),
            },
            _ => broken(task, answer),
        },
        Phase::Probe => match answer {
            AnswerView::Exists(compressed) => (
                TaskView { phase: Phase::Extract, ..task },
                OrderView::Extract {
                    archive_path: path_in(task.snapshot_path, archive_name(format_of(compressed))),
                    restore_path: task.restore_path,
                    format: format_of(compressed),
                    total_size: task.total_size,
                },
            ),
            _ => broken(task, answer),
        },
        Phase::Extract => match answer {
            AnswerView::Done => reported(task),
            _ => broken(task, answer),
        },
        Phase::Report => match answer {
            AnswerView::Done => ended(task, Ok(())),
            _ => broken(task, answer),
        },
        Phase::Finished => (task, OrderView::Stop),
    }
}

/// Success is told. A task ends well only in answer to the writing of
/// the line that carries the record of the whole total, and that line
/// is ordered only when the archiving or the extraction has ended well.
pub proof fn lemma_success_is_reported(before: TaskView, first: AnswerView, second: AnswerView)
    ensures
        ({
            let (waiting, order) = next(before, first);
            let (_, last) = next(waiting, second);
            &&& last == (OrderView::Finish { result: Ok(()) }) ==> order == (OrderView::Report {
                line: completion_line(waiting.total_size),
            }) && second == AnswerView::Done
            &&& order is Report ==> (before.phase == Phase::Archive || before.phase == Phase::Extract) && first
                == AnswerView::Done
        }),
{
}

/// A snapshot that ends well is told to the end. When every order is
/// carried out, the last thing that the task writes is the record that
/// counts, out of the bytes in the regular files of the tree, all of
/// them.
pub proof fn lemma_snapshot_ends_with_the_total(
    compress: bool,
    source_path: Seq<char>,
    snapshot_path: Seq<char>,
    entries: Seq<Entry>,
)
    requires
        total_size(entries) <= u64::MAX,
    ensures
        ({
            let (walking, _) = begun(CommandsView::Snapshot { compress, source_path, snapshot_path });
            let (writing, _) = next(walking, AnswerView::Entries(entries));
            let (archiving, archive) = next(writing, AnswerView::Done);
            let (reporting, report) = next(archiving, AnswerView::Done);
            let (_, finish) = next(reporting, AnswerView::Done);
            &&& archive matches OrderView::Archive { total_size: counted, .. } && counted == total_size(
                entries,
            )
            &&& report == OrderView::Report { line: completion_line(total_size(entries) as u64) }
            &&& finish == OrderView::Finish { result: Ok(()) }
        }),
{
    lemma_total_size_grows(entries, 0);
}

/// A restore that ends well is told to the end. When the metadata holds
/// a size and every order is carried out, the last thing that the task
/// writes is the record that counts all of that size.
pub proof fn lemma_restore_ends_with_the_total(
    snapshot_path: Seq<char>,
    restore_path: Seq<char>,
    content: Seq<u8>,
    compressed: bool,
    size: u64,
)
    requires
        metadata_in(content) == Some(size),
    ensures
        ({
            let (reading, _) = begun(CommandsView::Restore { snapshot_path, restore_path });
            let (probing, _) = next(reading, AnswerView::Content(content));
            let (extracting, extract) = next(probing, AnswerView::Exists(compressed));
            let (reporting, report) = next(extracting, AnswerView::Done);
            let (_, finish) = next(reporting, AnswerView::Done);
            &&& extract matches OrderView::Extract { total_size: counted, .. } && counted == size
            &&& report == OrderView::Report { line: completion_line(size) }
            &&& finish == OrderView::Finish { result: Ok(()) }
        }),
{
}

/// The metadata comes before the archive, and tells its size. A task
/// orders an archive only in answer to the writing of the metadata, and
/// the total that it orders the progress to be reported out of is the
/// size that the metadata holds.
pub proof fn lemma_metadata_before_archive(before: TaskView, first: AnswerView, second: AnswerView)
    ensures
        ({
            let (waiting, written) = next(before, first);
            let (_, order) = next(waiting, second);
            match order {
                OrderView::Archive { total_size: total, .. } => before.phase == Phase::Walk ==> second
                    == AnswerView::Done && written == (OrderView::WriteFile {
                    path: path_in(before.snapshot_path, SNAPSHOT_METADATA@),
                    content: ascii(metadata_json(total)),
                }),
                _ => true,
            }
        }),
{
}

/// Nothing is restored without its metadata. A task orders an
/// extraction only after it has read metadata that holds a size, and
/// that size is the total that it orders the progress to be reported out
/// of.
pub proof fn lemma_restore_needs_metadata(command: CommandsView, content: Seq<u8>, compressed: bool)
    requires
        command is Restore,
    ensures
        ({
            let (reading, _) = begun(command);
            let (probing, probe) = next(reading, AnswerView::Content(content));
            let (_, order) = next(probing, AnswerView::Exists(compressed));
            match metadata_in(content) {
                Some(total) => match order {
                    OrderView::Extract { total_size: reported, format, .. } => reported == total && format
                        == format_of(compressed),
                    _ => false,
                },
                None => probe == (OrderView::Finish { result: Err(TaskErrorView::MalformedMetadata) })
                    && order == OrderView::Stop,
            }
        }),
{
}

fn end(task: Task, result: Result<(), TaskError>) -> (after: (Task, Order))
    ensures
        (after.0.deep_view(), after.1.deep_view()) == ended(
            task.deep_view(),
            match result {
                Ok(_) => Ok(()),
                Err(e) => Err(e.deep_view()),
            },
        ),
{
    let mut task = task;
    task.phase = Phase::Finished;
    (task, Order::Finish { result })
}

fn report(task: Task) -> (after: (Task, Order))
    ensures
        (after.0.deep_view(), after.1.deep_view()) == reported(task.deep_view()),
{
    let mut task = task;
    task.phase = Phase::Report;
    let line = encode_progress_line(Progress { progress: task.total_size, total: task.total_size });
    (task, Order::Report { line })
}

fn stop(task: Task, answer: Answer) -> (after: (Task, Order))
    ensures
        (after.0.deep_view(), after.1.deep_view()) == broken(task.deep_view(), answer.deep_view()),
{
    match answer {
        Answer::Failed(message) => end(task, Err(TaskError::Failed { message })),
        _ => end(task, Err(TaskError::Unexpected)),
    }
}

/// Begins the snapshot of the tree under `source_path` into the
/// directory `snapshot_path`: the state to keep and the first order to
/// perform.
pub fn snapshot(source_path: &str, snapshot_path: &str, compress: bool) -> (first: (Task, Order))
    ensures
        (first.0.deep_view(), first.1.deep_view()) == begun(
            CommandsView::Snapshot { compress, source_path: source_path@, snapshot_path: snapshot_path@ },
        ),
{
    (
        Task {
            phase: Phase::Walk,
            compress,
            source_path: owned(source_path),
            snapshot_path: owned(snapshot_path),
            restore_path: String::new(),
            total_size: 0,
        },
        Order::Walk { path: owned(source_path) },
    )
}

/// Begins the restore of the snapshot in the directory `snapshot_path`
/// into the directory `restore_path`: the state to keep and the first
/// order to perform.
pub fn restore(snapshot_path: &str, restore_path: &str) -> (first: (Task, Order))
    ensures
        (first.0.deep_view(), first.1.deep_view()) == begun(
            CommandsView::Restore { snapshot_path: snapshot_path@, restore_path: restore_path@ },
        ),
{
    (
        Task {
            phase: Phase::ReadMetadata,
            compress: false,
            source_path: String::new(),
            snapshot_path: owned(snapshot_path),
            restore_path: owned(restore_path),
            total_size: 0,
        },
        Order::ReadFile { path: join_path(snapshot_path, SNAPSHOT_METADATA) },
    )
}

impl Task {
    /// Begins the task that `command` asks for: the state to keep and
    /// the first order to perform.
    pub fn start(command: Commands) -> (first: (Task, Order))
        ensures
            (first.0.deep_view(), first.1.deep_view()) == begun(command.deep_view()),
    {
        match command {
            Commands::Snapshot { compress, source_path, snapshot_path } => snapshot(
                source_path.as_str(),
                snapshot_path.as_str(),
                compress,
            ),
            Commands::Restore { snapshot_path, restore_path } => restore(
                snapshot_path.as_str(),
                restore_path.as_str(),
            ),
        }
    }

    /// Whether the task is over.
    pub fn is_finished(&self) -> (over: bool)
        ensures
            over == (self.phase == Phase::Finished),
    {
        self.phase == Phase::Finished
    }

    /// Takes what came of the order that was last given and gives the
    /// state to keep and the order to perform next.
    pub fn step(self, answer: Answer) -> (after: (Task, Order))
        ensures
            (after.0.deep_view(), after.1.deep_view()) == next(self.deep_view(), answer.deep_view()),
    {
        let mut task = self;
        match task.phase {
            Phase::Walk => match answer {
                Answer::Entries(entries) => match calculate_total_size(&entries) {
                    Some(total) => {
                        task.phase = Phase::WriteMetadata;
                        task.total_size = total;
                        let path = join_path(task.snapshot_path.as_str(), SNAPSHOT_METADATA);
                        let content = SnapshotMetadata::new(total).write();
                        (task, Order::WriteFile { path, content })
                    },
                    None => end(task, Err(TaskError::TotalSizeOverflow)),
                },
                other => stop(task, other),
            },
            Phase::WriteMetadata => match answer {
                Answer::Done => {
                    task.phase = Phase::Archive;
                    let format = format_for(task.compress);
                    let order = Order::Archive {
                        source_path: task.source_path.clone(),
                        archive_path: join_path(task.snapshot_path.as_str(), archive_file(format)),
                        format,
                        total_size: task.total_size,
                    };
                    (task, order)
                },
                other => stop(task, other),
            },
            Phase::Archive => match answer {
                Answer::Done => report(task),
                other => stop(task, other),
            },
            Phase::ReadMetadata => match answer {
                Answer::Content(content) => match SnapshotMetadata::read(content.as_slice()) {
                    Ok(metadata) => {
                        task.phase = Phase::Probe;
                        task.total_size = metadata.total_size;
                        let path = join_path(task.snapshot_path.as_str(), SNAPSHOT_TAR_ZST);
                        (task, Order::Probe { path })
                    },
                    Err(_) => end(task, Err(TaskError::MalformedMetadata)),
                },
                other => stop(task, other),
            },
            Phase::Probe => match answer {
                Answer::Exists(compressed) => {
                    task.phase = Phase::Extract;
                    let format = format_for(compressed);
                    let order = Order::Extract {
                        archive_path: join_path(task.snapshot_path.as_str(), archive_file(format)),
                        restore_path: task.restore_path.clone(),
                        format,
                        total_size: task.total_size,
                    };
                    (task, order)
                },
                other => stop(task, other),
            },
            Phase::Extract => match answer {
                Answer::Done => report(task),
                other => stop(task, other),
            },
            Phase::Report => match answer {
                Answer::Done => end(task, Ok(())),
                other => stop(task, other),
            },
            Phase::Finished => (task, Order::Stop),
        }
    }
}

} // verus!

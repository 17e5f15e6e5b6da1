//! The life of one worker container, as a machine that decides the next
//! request to the container runtime from the reply to the previous one.
//!
//! The caller performs each [`Action`] and hands the runtime's [`Reply`] to
//! [`WorkerRun::step`]. Whatever the replies are, a container whose creation
//! was requested is asked to be removed before the run finishes.

use vstd::prelude::*;

verus! {

/// What the run is waiting for.
#[derive(Clone, Copy, PartialEq, Eq, Structural, Debug)]
pub enum Stage {
    /// The reply to [`Action::InspectImage`].
    CheckImage,
    /// The reply to [`Action::PullImage`].
    PullImage,
    /// The reply to [`Action::CreateContainer`].
    Create,
    /// The reply to [`Action::StartContainer`].
    Start,
    /// The reply to [`Action::FollowAndWait`].
    Run,
    /// The reply to [`Action::RemoveContainer`].
    Remove,
    /// Nothing: the run is over.
    Done,
}

/// What the container runtime answered to the last action.
#[derive(Debug)]
pub enum Reply {
    /// The request succeeded and has nothing to tell.
    Done,
    /// The answer to a question: whether the image is present.
    Flag(bool),
    /// The container exited with this status code.
    Code(i64),
    /// The request failed, with the runtime's message.
    Error(String),
}

/// Why a run did not succeed.
#[derive(Debug)]
pub enum Failure {
    /// The worker ran and exited with a status code other than zero.
    WorkerFailed { exit_code: i64 },
    /// A request to the runtime failed, or was answered by a reply of the
    /// wrong kind (then without a message), while the run was at `stage`.
    Orchestration { stage: Stage, message: Option<String> },
}

/// How a run ended.
#[derive(Debug)]
pub struct Report {
    /// The first thing that went wrong, if anything did.
    pub failure: Option<Failure>,
    /// Why the container could not be removed, if it could not. It never
    /// takes the place of `failure`.
    pub cleanup: Option<Failure>,
}

/// What the caller is to do next.
#[derive(Debug)]
pub enum Action {
    /// Ask whether the worker image is present; answer with [`Reply::Flag`].
    InspectImage,
    /// Pull the worker image.
    PullImage,
    /// Create the worker container.
    CreateContainer,
    /// Start the worker container.
    StartContainer,
    /// Follow the container's output until it ends and wait for the
    /// container to exit; answer with [`Reply::Code`].
    FollowAndWait,
    /// Remove the worker container.
    RemoveContainer,
    /// Return this report: the run is over.
    Finish(Report),
    /// Nothing: the run was over before this reply.
    Stop,
}

/// The state of one run.
#[derive(Debug)]
pub struct WorkerRun {
    /// What the run is waiting for.
    pub stage: Stage,
    /// The first thing that went wrong so far.
    pub failure: Option<Failure>,
}

/// The failure that `reply` stands for when it answers the action of
/// `stage` and is not the reply that lets the run go on.
pub open spec fn failure_of(stage: Stage, reply: Reply) -> Failure {
    match reply {
        Reply::Error(message) => Failure::Orchestration { stage, message: Some(message) },
        _ => Failure::Orchestration { stage, message: None },
    }
}

/// What the exit of the worker means for the run: nothing after status
/// zero, a failure after anything else.
pub open spec fn exit_failure(reply: Reply) -> Option<Failure> {
    match reply {
        Reply::Code(code) => if code == 0 {
            None
        } else {
            Some(Failure::WorkerFailed { exit_code: code })
        },
        _ => Some(failure_of(Stage::Run, reply)),
    }
}

/// The state in which a run begins.
pub open spec fn initial() -> WorkerRun {
    WorkerRun { stage: Stage::CheckImage, failure: None }
}

/// The transition of the machine: the state after `reply` and the action
/// that it asks for.
pub open spec fn next(run: WorkerRun, reply: Reply) -> (WorkerRun, Action) {
    match run.stage {
        Stage::CheckImage => match reply {
            Reply::Flag(true) => (WorkerRun { stage: Stage::Create, failure: None }, Action::CreateContainer),
            Reply::Flag(false) => (WorkerRun { stage: Stage::PullImage, failure: None }, Action::PullImage),
            _ => (
                WorkerRun { stage: Stage::Done, failure: None },
                Action::Finish(Report { failure: Some(failure_of(Stage::CheckImage, reply)), cleanup: None }),
            ),
        },
        Stage::PullImage => match reply {
            Reply::Done => (WorkerRun { stage: Stage::Create, failure: None }, Action::CreateContainer),
            _ => (
                WorkerRun { stage: Stage::Done, failure: None },
                Action::Finish(Report { failure: Some(failure_of(Stage::PullImage, reply)), cleanup: None }),
            ),
        },
        Stage::Create => match reply {
            Reply::Done => (WorkerRun { stage: Stage::Start, failure: None }, Action::StartContainer),
            _ => (
                WorkerRun { stage: Stage::Remove, failure: Some(failure_of(Stage::Create, reply)) },
                Action::RemoveContainer,
            ),
        },
        Stage::Start => match reply {
            Reply::Done => (WorkerRun { stage: Stage::Run, failure: None }, Action::FollowAndWait),
            _ => (
                WorkerRun { stage: Stage::Remove, failure: Some(failure_of(Stage::Start, reply)) },
                Action::RemoveContainer,
            ),
        },
        Stage::Run => (WorkerRun { stage: Stage::Remove, failure: exit_failure(reply) }, Action::RemoveContainer),
        Stage::Remove => match reply {
            Reply::Done => (
                WorkerRun { stage: Stage::Done, failure: None },
                Action::Finish(Report { failure: run.failure, cleanup: None }),
            ),
            _ => (
                WorkerRun { stage: Stage::Done, failure: None },
                Action::Finish(
                    Report { failure: run.failure, cleanup: Some(failure_of(Stage::Remove, reply)) },
                ),
            ),
        },
        Stage::Done => (run, Action::Stop),
    }
}

/// The state after `replies`, handed in order to a run from its start.
pub open spec fn state_after(replies: Seq<Reply>) -> WorkerRun
    decreases replies.len(),
{
    if replies.len() == 0 {
        initial()
    } else {
        next(state_after(replies.drop_last()), replies.last()).0
    }
}

/// The actions that a run asks for from its start: the first one, then one
/// for each of `replies`.
pub open spec fn actions_after(replies: Seq<Reply>) -> Seq<Action>
    decreases replies.len(),
{
    if replies.len() == 0 {
        seq![Action::InspectImage]
    } else {
        actions_after(replies.drop_last()).push(next(state_after(replies.drop_last()), replies.last()).1)
    }
}

/// Whether `actions` leave a container behind: the creation of one was
/// asked for and, since then, its removal was not.
pub open spec fn removal_owed(actions: Seq<Action>) -> bool
    decreases actions.len(),
{
    if actions.len() == 0 {
        false
    } else {
        match actions.last() {
            Action::CreateContainer => true,
            Action::RemoveContainer => false,
            _ => removal_owed(actions.drop_last()),
        }
    }
}

/// Whether the container is there after `replies`, going by what the
/// runtime answered: it is there once its creation has succeeded, and gone
/// once its removal has.
pub open spec fn container_present(replies: Seq<Reply>) -> bool
    decreases replies.len(),
{
    if replies.len() == 0 {
        false
    } else {
        let before = state_after(replies.drop_last());
        if before.stage == Stage::Create && replies.last() is Done {
            true
        } else if before.stage == Stage::Remove && replies.last() is Done {
            false
        } else {
            container_present(replies.drop_last())
        }
    }
}

proof fn lemma_trace(replies: Seq<Reply>)
    ensures
        actions_after(replies).len() == replies.len() + 1,
        removal_owed(actions_after(replies)) <==> (state_after(replies).stage == Stage::Create
            || state_after(replies).stage == Stage::Start || state_after(replies).stage == Stage::Run),
        container_present(replies) ==> (state_after(replies).stage != Stage::CheckImage && state_after(
            replies,
        ).stage != Stage::PullImage && state_after(replies).stage != Stage::Create),
        actions_after(replies).last() is Finish ==> state_after(replies).stage == Stage::Done,
        actions_after(replies).last() is Finish && replies.len() > 0 ==> state_after(
            replies.drop_last(),
        ).stage != Stage::Done,
    decreases replies.len(),
{
    if replies.len() > 0 {
        let before = replies.drop_last();
        lemma_trace(before);
        assert(actions_after(replies).drop_last() == actions_after(before));
    } else {
        let first = actions_after(replies);
        assert(!removal_owed(first.drop_last()));
    }
}

/// Cleanup is never skipped. Whatever the runtime replies, and however
/// the worker exits, a run that has asked for the creation of a container
/// does not finish before it has asked for its removal.
pub proof fn lemma_cleanup_is_attempted(replies: Seq<Reply>)
    ensures
        actions_after(replies).last() is Finish ==> !removal_owed(actions_after(replies)),
{
    lemma_trace(replies);
}

/// A clean report means a clean runtime. When a run finishes and its
/// report names no cleanup failure, the container is gone: either it was
/// never created, or the runtime has confirmed its removal.
pub proof fn lemma_clean_report_means_removed(replies: Seq<Reply>, report: Report)
    requires
        actions_after(replies).last() == Action::Finish(report),
        report.cleanup is None,
    ensures
        !container_present(replies),
{
    lemma_trace(replies);
    if replies.len() > 0 {
        lemma_trace(replies.drop_last());
    }
}

/// A run finishes once. After the action that ends it, every further
/// reply is answered by [`Action::Stop`] and changes nothing.
pub proof fn lemma_finish_is_final(replies: Seq<Reply>, reply: Reply)
    requires
        actions_after(replies).last() is Finish || actions_after(replies).last() is Stop,
    ensures
        actions_after(replies.push(reply)).last() == Action::Stop,
        state_after(replies.push(reply)) == state_after(replies),
{
    lemma_trace(replies);
    lemma_stop_means_done(replies);
    assert(replies.push(reply).drop_last() == replies);
}

proof fn lemma_stop_means_done(replies: Seq<Reply>)
    ensures
        actions_after(replies).last() is Stop ==> state_after(replies).stage == Stage::Done,
    decreases replies.len(),
{
    if replies.len() > 0 {
        lemma_stop_means_done(replies.drop_last());
    }
}

/// The report tells what happened. A run reports no failure at all only
/// when the image was there or was pulled, the container was created and
/// started, the worker exited with status zero and the container was
/// removed; and on those replies it does.
pub proof fn lemma_success(replies: Seq<Reply>)
    ensures
        actions_after(replies).last() == Action::Finish(Report { failure: None, cleanup: None }) <==> (
        replies == seq![Reply::Flag(true), Reply::Done, Reply::Done, Reply::Code(0), Reply::Done]
            || replies == seq![
            Reply::Flag(false),
            Reply::Done,
            Reply::Done,
            Reply::Done,
            Reply::Code(0),
            Reply::Done,
        ]),
{
    let hit = seq![Reply::Flag(true), Reply::Done, Reply::Done, Reply::Code(0), Reply::Done];
    let miss = seq![Reply::Flag(false), Reply::Done, Reply::Done, Reply::Done, Reply::Code(0), Reply::Done];
    if replies == hit || replies == miss {
        reveal_with_fuel(state_after, 8);
        reveal_with_fuel(actions_after, 8);
    }
    if actions_after(replies).last() == Action::Finish(Report { failure: None, cleanup: None }) {
        lemma_success_only(replies);
    }
}

proof fn lemma_success_only(replies: Seq<Reply>)
    requires
        actions_after(replies).last() == Action::Finish(Report { failure: None, cleanup: None }),
    ensures
        replies == seq![Reply::Flag(true), Reply::Done, Reply::Done, Reply::Code(0), Reply::Done]
            || replies == seq![
            Reply::Flag(false),
            Reply::Done,
            Reply::Done,
            Reply::Done,
            Reply::Code(0),
            Reply::Done,
        ],
{
    // Walking back from the end: the run waited for the removal, the exit, the
    // start and the creation in turn, and each was answered with success.
    let r5 = replies;
    let r4 = r5.drop_last();
    let r3 = r4.drop_last();
    assert(state_after(r3).stage == Stage::Run && r4.last() == Reply::Code(0));
    let r2 = r3.drop_last();
    assert(state_after(r2).stage == Stage::Start && r3.last() == Reply::Done);
    let r1 = r2.drop_last();
    assert(state_after(r1).stage == Stage::Create && r2.last() == Reply::Done);
    let r0 = r1.drop_last();
    if state_after(r0).stage == Stage::CheckImage {
        assert(r0.len() == 0) by {
            if r0.len() > 0 {
                lemma_check_image_is_first(r0);
            }
        }
    } else {
        let q = r0.drop_last();
        assert(q.len() == 0) by {
            if q.len() > 0 {
                lemma_check_image_is_first(q);
            }
        }
    }
}

proof fn lemma_check_image_is_first(replies: Seq<Reply>)
    requires
        replies.len() > 0,
    ensures
        state_after(replies).stage != Stage::CheckImage,
{
}

fn as_failure(stage: Stage, reply: Reply) -> (failure: Failure)
    ensures
        failure == failure_of(stage, reply),
{
    match reply {
        Reply::Error(message) => Failure::Orchestration { stage, message: Some(message) },
        _ => Failure::Orchestration { stage, message: None },
    }
}

impl WorkerRun {
    /// Begins a run: the state to keep and the first action to perform.
    pub fn start() -> (begun: (WorkerRun, Action))
        ensures
            begun.0 == initial(),
            begun.1 == Action::InspectImage,
    {
        (WorkerRun { stage: Stage::CheckImage, failure: None }, Action::InspectImage)
    }

    /// Whether the run is over.
    pub fn is_done(&self) -> (done: bool)
        ensures
            done == (self.stage == Stage::Done),
    {
        self.stage == Stage::Done
    }

    /// Takes the reply to the action that was last asked for and gives the
    /// state to keep and the action to perform next.
    pub fn step(self, reply: Reply) -> (after: (WorkerRun, Action))
        ensures
            after == next(self, reply),
    {
        match self.stage {
            Stage::CheckImage => match reply {
                Reply::Flag(true) => (WorkerRun { stage: Stage::Create, failure: None }, Action::CreateContainer),
                Reply::Flag(false) => (WorkerRun { stage: Stage::PullImage, failure: None }, Action::PullImage),
                other => (
                    WorkerRun { stage: Stage::Done, failure: None },
                    Action::Finish(Report { failure: Some(as_failure(Stage::CheckImage, other)), cleanup: None }),
                ),
            },
            Stage::PullImage => match reply {
                Reply::Done => (WorkerRun { stage: Stage::Create, failure: None }, Action::CreateContainer),
                other => (
                    WorkerRun { stage: Stage::Done, failure: None },
                    Action::Finish(Report { failure: Some(as_failure(Stage::PullImage, other)), cleanup: None }),
                ),
            },
            Stage::Create => match reply {
                Reply::Done => (WorkerRun { stage: Stage::Start, failure: None }, Action::StartContainer),
                other => (
                    WorkerRun { stage: Stage::Remove, failure: Some(as_failure(Stage::Create, other)) },
                    Action::RemoveContainer,
                ),
            },
            Stage::Start => match reply {
                Reply::Done => (WorkerRun { stage: Stage::Run, failure: None }, Action::FollowAndWait),
                other => (
                    WorkerRun { stage: Stage::Remove, failure: Some(as_failure(Stage::Start, other)) },
                    Action::RemoveContainer,
                ),
            },
            Stage::Run => {
                let failure = match reply {
                    Reply::Code(code) => if code == 0 {
                        None
                    } else {
                        Some(Failure::WorkerFailed { exit_code: code })
                    },
                    other => Some(as_failure(Stage::Run, other)),
                };
                (WorkerRun { stage: Stage::Remove, failure }, Action::RemoveContainer)
            },
            Stage::Remove => match reply {
                Reply::Done => (
                    WorkerRun { stage: Stage::Done, failure: None },
                    Action::Finish(Report { failure: self.failure, cleanup: None }),
                ),
                other => (
                    WorkerRun { stage: Stage::Done, failure: None },
                    Action::Finish(
                        Report { failure: self.failure, cleanup: Some(as_failure(Stage::Remove, other)) },
                    ),
                ),
            },
            Stage::Done => (self, Action::Stop),
        }
    }
}

} // verus!

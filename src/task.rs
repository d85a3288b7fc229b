//! The transfer of one file, as a state machine.
//!
//! The caller performs each [`TaskAction`] (it checks, creates, scans, copies
//! and removes files) and hands what happened back as a [`TaskEvent`]; the
//! machine decides what comes next. The source file is removed only once its
//! bytes were all copied, and the task succeeds only once it was removed.
use vstd::prelude::*;

verus! {

/// Why a file transfer failed.
#[derive(Debug, PartialEq, Eq)]
pub enum TransferError {
    /// The source file did not exist when the task started.
    SourceMissing,
    /// A read, write, seek, metadata, create or remove operation failed; the
    /// text describes the underlying error.
    Io(String),
}

/// Where a file transfer stands.
#[derive(Debug, PartialEq, Eq)]
pub enum TaskState {
    /// Waiting for a permit of the concurrency limiter.
    AwaitingPermit,
    /// Checking that the source file exists.
    CheckingSource,
    /// Creating the destination's parent directories.
    PreparingParent,
    /// Checking whether the destination file already exists.
    CheckingDestination,
    /// Comparing the existing destination against the source.
    Scanning,
    /// Copying the source from `offset` on into the destination.
    Copying { offset: u64 },
    /// Removing the source file.
    RemovingSource,
    /// The file was moved.
    Succeeded,
    /// The transfer stopped with an error; the source file was not removed.
    Failed(TransferError),
}

/// What happened after an action.
#[derive(Debug, PartialEq, Eq)]
pub enum TaskEvent {
    PermitGranted,
    SourceChecked { exists: bool },
    ParentReady,
    DestinationChecked { exists: bool },
    ScanFinished { matched: u64 },
    CopyFinished,
    SourceRemoved,
    IoFailed(String),
}

/// What the caller is to do next.
#[derive(Debug, PartialEq, Eq)]
pub enum TaskAction {
    /// Nothing: the event did not fit the state, or the task is over.
    Wait,
    CheckSource,
    CreateParent,
    CheckDestination,
    /// Run the resume-offset detection on the existing destination.
    ScanDestination,
    /// Position both files at this offset and copy the rest of the source.
    CopyFrom(u64),
    RemoveSource,
    /// The task is over; its state holds the outcome.
    Finish,
}

impl TaskState {
    /// The task is over, one way or the other.
    pub open spec fn is_terminal(&self) -> bool {
        self is Succeeded || self is Failed
    }
}

/// The state after `event` in state `s`.
pub open spec fn next_state(s: TaskState, event: TaskEvent) -> TaskState {
    next(s, event).0
}

/// The action after `event` in state `s`.
pub open spec fn next_action(s: TaskState, event: TaskEvent) -> TaskAction {
    next(s, event).1
}

/// The transition table.
pub open spec fn next(s: TaskState, event: TaskEvent) -> (TaskState, TaskAction) {
    if s.is_terminal() {
        (s, TaskAction::Wait)
    } else {
        match (s, event) {
            (_, TaskEvent::IoFailed(m)) => (TaskState::Failed(TransferError::Io(m)), TaskAction::Finish),
            (TaskState::AwaitingPermit, TaskEvent::PermitGranted) => (
                TaskState::CheckingSource,
                TaskAction::CheckSource,
            ),
            (TaskState::CheckingSource, TaskEvent::SourceChecked { exists }) => if exists {
                (TaskState::PreparingParent, TaskAction::CreateParent)
            } else {
                (TaskState::Failed(TransferError::SourceMissing), TaskAction::Finish)
            },
            (TaskState::PreparingParent, TaskEvent::ParentReady) => (
                TaskState::CheckingDestination,
                TaskAction::CheckDestination,
            ),
            (TaskState::CheckingDestination, TaskEvent::DestinationChecked { exists }) => if exists {
                (TaskState::Scanning, TaskAction::ScanDestination)
            } else {
                (TaskState::Copying { offset: 0 }, TaskAction::CopyFrom(0))
            },
            (TaskState::Scanning, TaskEvent::ScanFinished { matched }) => (
                TaskState::Copying { offset: matched },
                TaskAction::CopyFrom(matched),
            ),
            (TaskState::Copying { .. }, TaskEvent::CopyFinished) => (
                TaskState::RemovingSource,
                TaskAction::RemoveSource,
            ),
            (TaskState::RemovingSource, TaskEvent::SourceRemoved) => (
                TaskState::Succeeded,
                TaskAction::Finish,
            ),
            _ => (s, TaskAction::Wait),
        }
    }
}

/// Takes one step of a file transfer: the state that follows `event` in
/// `state`, and what the caller is to do next.
pub fn step(state: TaskState, event: TaskEvent) -> (r: (TaskState, TaskAction))
    ensures
        r == next(state, event),
{
    if matches!(state, TaskState::Succeeded) || matches!(state, TaskState::Failed(_)) {
        return (state, TaskAction::Wait);
    }
    match event {
        TaskEvent::IoFailed(m) => (TaskState::Failed(TransferError::Io(m)), TaskAction::Finish),
        TaskEvent::PermitGranted => match state {
            TaskState::AwaitingPermit => (TaskState::CheckingSource, TaskAction::CheckSource),
            _ => (state, TaskAction::Wait),
        },
        TaskEvent::SourceChecked { exists } => match state {
            TaskState::CheckingSource => if exists {
                (TaskState::PreparingParent, TaskAction::CreateParent)
            } else {
                (TaskState::Failed(TransferError::SourceMissing), TaskAction::Finish)
            },
            _ => (state, TaskAction::Wait),
        },
        TaskEvent::ParentReady => match state {
            TaskState::PreparingParent => (
                TaskState::CheckingDestination,
                TaskAction::CheckDestination,
            ),
            _ => (state, TaskAction::Wait),
        },
        TaskEvent::DestinationChecked { exists } => match state {
            TaskState::CheckingDestination => if exists {
                (TaskState::Scanning, TaskAction::ScanDestination)
            } else {
                (TaskState::Copying { offset: 0 }, TaskAction::CopyFrom(0))
            },
            _ => (state, TaskAction::Wait),
        },
        TaskEvent::ScanFinished { matched } => match state {
            TaskState::Scanning => (
                TaskState::Copying { offset: matched },
                TaskAction::CopyFrom(matched),
            ),
            _ => (state, TaskAction::Wait),
        },
        TaskEvent::CopyFinished => match state {
            TaskState::Copying { .. } => (TaskState::RemovingSource, TaskAction::RemoveSource),
            _ => (state, TaskAction::Wait),
        },
        TaskEvent::SourceRemoved => match state {
            TaskState::RemovingSource => (TaskState::Succeeded, TaskAction::Finish),
            _ => (state, TaskAction::Wait),
        },
    }
}

/// The outcome of a task that is over: `Ok` once the file was moved, its
/// error once it failed, `None` while it runs.
pub fn outcome(state: TaskState) -> (r: Option<Result<(), TransferError>>)
    ensures
        state is Succeeded ==> r == Some(Ok::<(), TransferError>(())),
        state is Failed ==> r == Some(Err::<(), TransferError>(state->Failed_0)),
        !state.is_terminal() ==> r is None,
{
    match state {
        TaskState::Succeeded => Some(Ok(())),
        TaskState::Failed(e) => Some(Err(e)),
        _ => None,
    }
}

/// The state of a task that started waiting for a permit and then saw
/// `events`, in order.
pub open spec fn state_after(events: Seq<TaskEvent>) -> TaskState
    decreases events.len(),
{
    if events.len() == 0 {
        TaskState::AwaitingPermit
    } else {
        next_state(state_after(events.drop_last()), events.last())
    }
}

/// The action that the task asked for after the event at index `i`.
pub open spec fn action_at(events: Seq<TaskEvent>, i: int) -> TaskAction {
    next_action(state_after(events.take(i)), events[i])
}

/// The removal of the source was reported done at index `i`, while the task
/// was waiting for it.
pub open spec fn removal_done_at(events: Seq<TaskEvent>, i: int) -> bool {
    &&& 0 <= i < events.len()
    &&& state_after(events.take(i)) is RemovingSource
    &&& events[i] is SourceRemoved
}

proof fn lemma_state_after_take_last(events: Seq<TaskEvent>)
    requires
        events.len() > 0,
    ensures
        events.take(events.len() - 1) == events.drop_last(),
{
    assert(events.take(events.len() - 1) =~= events.drop_last());
}

proof fn lemma_state_after_prefix(events: Seq<TaskEvent>, i: int)
    requires
        0 <= i < events.len(),
    ensures
        state_after(events.take(i + 1)) == next_state(state_after(events.take(i)), events[i]),
{
    let t = events.take(i + 1);
    assert(t.drop_last() =~= events.take(i));
}

/// Once a task is over, it stays over with the same outcome, and asks for
/// nothing more.
pub proof fn lemma_terminal_is_final(events: Seq<TaskEvent>, i: int)
    requires
        0 <= i <= events.len(),
        state_after(events.take(i)).is_terminal(),
    ensures
        state_after(events) == state_after(events.take(i)),
        forall|j: int| i <= j < events.len() ==> action_at(events, j) is Wait,
    decreases events.len() - i,
{
    if i < events.len() {
        lemma_state_after_prefix(events, i);
        lemma_terminal_is_final(events, i + 1);
    } else {
        assert(events.take(i) =~= events);
    }
}

/// The task asks to remove the source only right after the copy of all its
/// remaining bytes was reported finished.
pub proof fn lemma_removal_follows_copy(events: Seq<TaskEvent>, i: int)
    requires
        0 <= i < events.len(),
        action_at(events, i) is RemoveSource,
    ensures
        state_after(events.take(i)) is Copying,
        events[i] is CopyFinished,
        state_after(events.take(i + 1)) is RemovingSource,
{
    lemma_state_after_prefix(events, i);
}

/// A task succeeds exactly when the removal of its source was reported done:
/// it never succeeds without that, and once that happened it stays succeeded,
/// whatever follows.
pub proof fn lemma_success_iff_source_removed(events: Seq<TaskEvent>)
    ensures
        (state_after(events) is Succeeded) <==> exists|i: int| removal_done_at(events, i),
    decreases events.len(),
{
    if events.len() == 0 {
        assert(!(state_after(events) is Succeeded));
    } else {
        let prev = events.drop_last();
        let n = events.len() - 1;
        lemma_state_after_take_last(events);
        lemma_success_iff_source_removed(prev);
        if state_after(events) is Succeeded {
            if state_after(prev) is Succeeded {
                let i = choose|i: int| removal_done_at(prev, i);
                assert(events.take(i) =~= prev.take(i));
                assert(removal_done_at(events, i));
            } else {
                assert(removal_done_at(events, n));
            }
        }
        if exists|i: int| removal_done_at(events, i) {
            let i = choose|i: int| removal_done_at(events, i);
            lemma_state_after_prefix(events, i);
            lemma_terminal_is_final(events, i + 1);
        }
    }
}

/// A task whose destination did not exist copies from offset 0; one whose
/// destination existed copies from the matched length that the scan reported.
pub proof fn lemma_copy_offset(s: TaskState, event: TaskEvent)
    ensures
        s is CheckingDestination && event == (TaskEvent::DestinationChecked { exists: false })
            ==> next_action(s, event) == TaskAction::CopyFrom(0),
        s is Scanning && event is ScanFinished
            ==> next_action(s, event) == TaskAction::CopyFrom(event->matched),
{
}

} // verus!

use resumable_move::scan::resume_offset_in;
use resumable_move::task::{outcome, step, TaskAction, TaskEvent, TaskState, TransferError};

fn run(events: Vec<TaskEvent>) -> (TaskState, Vec<TaskAction>) {
    let mut state = TaskState::AwaitingPermit;
    let mut actions = Vec::new();
    for e in events {
        let (s, a) = step(state, e);
        state = s;
        actions.push(a);
    }
    (state, actions)
}

#[test]
fn fresh_destination_copies_from_zero() {
    let (state, actions) = run(vec![
        TaskEvent::PermitGranted,
        TaskEvent::SourceChecked { exists: true },
        TaskEvent::ParentReady,
        TaskEvent::DestinationChecked { exists: false },
        TaskEvent::CopyFinished,
        TaskEvent::SourceRemoved,
    ]);
    assert_eq!(
        actions,
        vec![
            TaskAction::CheckSource,
            TaskAction::CreateParent,
            TaskAction::CheckDestination,
            TaskAction::CopyFrom(0),
            TaskAction::RemoveSource,
            TaskAction::Finish,
        ]
    );
    assert_eq!(state, TaskState::Succeeded);
    assert_eq!(outcome(state), Some(Ok(())));
}

#[test]
fn existing_destination_resumes_at_matched_length() {
    let (state, actions) = run(vec![
        TaskEvent::PermitGranted,
        TaskEvent::SourceChecked { exists: true },
        TaskEvent::ParentReady,
        TaskEvent::DestinationChecked { exists: true },
        TaskEvent::ScanFinished { matched: 4_000_000 },
    ]);
    assert_eq!(actions[3], TaskAction::ScanDestination);
    assert_eq!(actions[4], TaskAction::CopyFrom(4_000_000));
    assert_eq!(state, TaskState::Copying { offset: 4_000_000 });
}

#[test]
fn missing_source_fails_without_removal() {
    let (state, actions) = run(vec![
        TaskEvent::PermitGranted,
        TaskEvent::SourceChecked { exists: false },
        TaskEvent::SourceRemoved,
    ]);
    assert_eq!(actions, vec![TaskAction::CheckSource, TaskAction::Finish, TaskAction::Wait]);
    assert_eq!(outcome(state), Some(Err(TransferError::SourceMissing)));
}

#[test]
fn io_failure_during_copy_keeps_source() {
    let (state, actions) = run(vec![
        TaskEvent::PermitGranted,
        TaskEvent::SourceChecked { exists: true },
        TaskEvent::ParentReady,
        TaskEvent::DestinationChecked { exists: false },
        TaskEvent::IoFailed("permission denied".to_string()),
        TaskEvent::CopyFinished,
    ]);
    assert!(!actions.contains(&TaskAction::RemoveSource));
    assert_eq!(
        outcome(state),
        Some(Err(TransferError::Io("permission denied".to_string())))
    );
}

#[test]
fn events_out_of_order_are_ignored() {
    let (state, actions) = run(vec![TaskEvent::CopyFinished, TaskEvent::SourceRemoved]);
    assert_eq!(actions, vec![TaskAction::Wait, TaskAction::Wait]);
    assert_eq!(state, TaskState::AwaitingPermit);
    assert_eq!(outcome(state), None);
}

#[test]
fn failed_removal_is_a_failure() {
    let (state, _) = run(vec![
        TaskEvent::PermitGranted,
        TaskEvent::SourceChecked { exists: true },
        TaskEvent::ParentReady,
        TaskEvent::DestinationChecked { exists: false },
        TaskEvent::CopyFinished,
        TaskEvent::IoFailed("busy".to_string()),
    ]);
    assert_eq!(outcome(state), Some(Err(TransferError::Io("busy".to_string()))));
}

#[test]
fn empty_source_with_no_destination_moves_at_once() {
    let (state, actions) = run(vec![
        TaskEvent::PermitGranted,
        TaskEvent::SourceChecked { exists: true },
        TaskEvent::ParentReady,
        TaskEvent::DestinationChecked { exists: false },
        TaskEvent::CopyFinished,
        TaskEvent::SourceRemoved,
    ]);
    assert!(!actions.contains(&TaskAction::ScanDestination));
    assert_eq!(actions[3], TaskAction::CopyFrom(0));
    assert_eq!(state, TaskState::Succeeded);
    assert_eq!(resume_offset_in(b"", b"", 10_000_000), 0);
}

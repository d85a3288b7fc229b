use resumable_move::config::{
    parse_args, parse_limit, permit_pool, Config, SyntaxError, DEFAULT_CONCURRENCY,
    MAX_CONCURRENCY,
};
use resumable_move::engine::{
    conclude, plan_entry, Entry, EntryPlan, MoveJob, PlanError, RunVerdict, TransferOutcome,
};
use resumable_move::engine::task_outcome;
use resumable_move::task::{TaskState, TransferError};
use std::sync::atomic::{AtomicUsize, Ordering};
use std::sync::Arc;

fn parts(p: &str) -> Vec<Vec<u8>> {
    p.split('/').map(|c| c.as_bytes().to_vec()).collect()
}

fn file(p: &str) -> Entry {
    Entry { path: parts(p), is_file: true, is_symlink: false }
}

#[test]
fn tree_files_mirror_under_destination() {
    let plan = plan_entry(&parts("src"), &parts("dst/out"), false, &file("src/a/b.txt"));
    assert_eq!(
        plan,
        Ok(EntryPlan::Move(MoveJob {
            source: parts("src/a/b.txt"),
            destination: parts("dst/out/a/b.txt"),
        }))
    );
}

#[test]
fn single_file_source_goes_to_destination_as_given() {
    let plan = plan_entry(&parts("data/f.bin"), &parts("backup/g.bin"), true, &file("data/f.bin"));
    assert_eq!(
        plan,
        Ok(EntryPlan::Move(MoveJob { source: parts("data/f.bin"), destination: parts("backup/g.bin") }))
    );
}

#[test]
fn symlinks_and_directories_are_not_moved() {
    let link = Entry { path: parts("src/link"), is_file: false, is_symlink: true };
    assert_eq!(plan_entry(&parts("src"), &parts("dst"), false, &link), Ok(EntryPlan::WarnSymlink));
    let dir = Entry { path: parts("src/sub"), is_file: false, is_symlink: false };
    assert_eq!(plan_entry(&parts("src"), &parts("dst"), false, &dir), Ok(EntryPlan::Skip));
}

#[test]
fn entry_outside_source_is_refused() {
    assert_eq!(
        plan_entry(&parts("src"), &parts("dst"), false, &file("other/a")),
        Err(PlanError::OutsideSource)
    );
    assert_eq!(
        plan_entry(&parts("src/x"), &parts("dst"), false, &file("src")),
        Err(PlanError::OutsideSource)
    );
}

#[test]
fn all_successes_remove_source() {
    let outcomes: Vec<TransferOutcome> = (0..5).map(|_| TransferOutcome::Success).collect();
    assert_eq!(conclude(&outcomes), RunVerdict::RemoveSource);
    assert_eq!(conclude(&Vec::new()), RunVerdict::RemoveSource);
}

#[test]
fn one_unreadable_file_keeps_source() {
    let mut outcomes: Vec<TransferOutcome> = (0..5).map(|_| TransferOutcome::Success).collect();
    outcomes[2] = TransferOutcome::Failure {
        path: parts("src/c"),
        error: TransferError::Io("permission denied".to_string()),
    };
    assert_eq!(conclude(&outcomes), RunVerdict::KeepSource { failed: vec![2] });
}

#[test]
fn every_failure_is_named() {
    let fail = |p: &str| TransferOutcome::Failure { path: parts(p), error: TransferError::SourceMissing };
    let outcomes = vec![fail("a"), TransferOutcome::Success, fail("c"), fail("d")];
    assert_eq!(conclude(&outcomes), RunVerdict::KeepSource { failed: vec![0, 2, 3] });
}

fn args(v: &[&str]) -> Vec<String> {
    v.iter().map(|s| s.to_string()).collect()
}

#[test]
fn default_limit_is_four() {
    assert_eq!(
        parse_args(&args(&["mv", "a", "b"])),
        Ok(Config { source: "a".to_string(), destination: "b".to_string(), concurrency: DEFAULT_CONCURRENCY })
    );
    assert_eq!(DEFAULT_CONCURRENCY, 4);
}

#[test]
fn explicit_limit_is_read() {
    assert_eq!(
        parse_args(&args(&["mv", "a", "b", "2"])),
        Ok(Config { source: "a".to_string(), destination: "b".to_string(), concurrency: 2 })
    );
}

#[test]
fn bad_invocations_are_refused() {
    assert_eq!(parse_args(&args(&["mv", "a"])), Err(SyntaxError::WrongArgumentCount));
    assert_eq!(parse_args(&args(&["mv", "a", "b", "4", "x"])), Err(SyntaxError::WrongArgumentCount));
    assert_eq!(parse_args(&args(&["mv", "a", "b", "0"])), Err(SyntaxError::InvalidLimit));
    assert_eq!(parse_args(&args(&["mv", "a", "b", "-3"])), Err(SyntaxError::InvalidLimit));
}

#[test]
fn limits_are_decimal_and_bounded() {
    assert_eq!(parse_limit("17"), Some(17));
    assert_eq!(parse_limit("007"), Some(7));
    assert_eq!(parse_limit(""), None);
    assert_eq!(parse_limit("0"), None);
    assert_eq!(parse_limit("1a"), None);
    assert_eq!(parse_limit(" 3"), None);
    assert_eq!(parse_limit(&MAX_CONCURRENCY.to_string()), Some(MAX_CONCURRENCY));
    assert_eq!(parse_limit(&(MAX_CONCURRENCY as u128 + 1).to_string()), None);
    assert_eq!(parse_limit("99999999999999999999999999"), None);
}

#[test]
fn permit_pool_holds_capacity() {
    let pool = permit_pool(2).unwrap();
    assert_eq!(pool.available_permits(), 2);
    assert_eq!(permit_pool(DEFAULT_CONCURRENCY).unwrap().available_permits(), 4);
    assert!(permit_pool(0).is_err());
    assert!(permit_pool(MAX_CONCURRENCY + 1).is_err());
}

#[test]
fn task_outcomes_carry_the_path() {
    assert_eq!(task_outcome(parts("a/b"), TaskState::Succeeded), Some(TransferOutcome::Success));
    assert_eq!(
        task_outcome(parts("a/b"), TaskState::Failed(TransferError::SourceMissing)),
        Some(TransferOutcome::Failure { path: parts("a/b"), error: TransferError::SourceMissing })
    );
    assert_eq!(task_outcome(parts("a/b"), TaskState::Scanning), None);
}

#[test]
fn limit_of_two_keeps_at_most_two_in_flight() {
    let config = parse_args(&args(&["mv", "src", "dst", "2"])).unwrap();
    let pool = Arc::new(permit_pool(config.concurrency).unwrap());
    let runtime = tokio::runtime::Runtime::new().unwrap();
    let in_flight = Arc::new(AtomicUsize::new(0));
    let peak = Arc::new(AtomicUsize::new(0));
    let done = runtime.block_on(async {
        let mut tasks = Vec::new();
        for _ in 0..5 {
            let pool = Arc::clone(&pool);
            let in_flight = Arc::clone(&in_flight);
            let peak = Arc::clone(&peak);
            tasks.push(tokio::spawn(async move {
                let _permit = pool.acquire().await.unwrap();
                let now = in_flight.fetch_add(1, Ordering::SeqCst) + 1;
                peak.fetch_max(now, Ordering::SeqCst);
                tokio::time::sleep(std::time::Duration::from_millis(20)).await;
                in_flight.fetch_sub(1, Ordering::SeqCst);
                TransferOutcome::Success
            }));
        }
        let mut outcomes = Vec::new();
        for t in tasks {
            outcomes.push(t.await.unwrap());
        }
        outcomes
    });
    assert!(peak.load(Ordering::SeqCst) <= 2);
    assert_eq!(done.len(), 5);
    assert_eq!(conclude(&done), RunVerdict::RemoveSource);
}

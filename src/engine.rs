//! The run over a whole tree: which entries become jobs, where each job's
//! destination lies, and what a run's outcomes decide about the source.
//!
//! A path is a sequence of components, each a string of bytes; the mirrored
//! destination of a file is the destination root followed by the file's path
//! relative to the source root.
use vstd::prelude::*;
use crate::task::{removal_done_at, state_after, TaskEvent, TaskState, TransferError};
use crate::task::lemma_success_iff_source_removed;

verus! {

/// A path, as its components.
pub type PathParts = Vec<Vec<u8>>;

/// One entry that the file lister found under the source.
#[derive(Debug, PartialEq, Eq)]
pub struct Entry {
    pub path: PathParts,
    pub is_file: bool,
    pub is_symlink: bool,
}

/// The transfer of one regular file.
#[derive(Debug, PartialEq, Eq)]
pub struct MoveJob {
    pub source: PathParts,
    pub destination: PathParts,
}

/// What becomes of one entry.
#[derive(Debug, PartialEq, Eq)]
pub enum EntryPlan {
    /// A directory or other entry that is not moved by itself.
    Skip,
    /// A symbolic link: never moved nor removed; the caller warns about it.
    WarnSymlink,
    /// A regular file, moved by this job.
    Move(MoveJob),
}

/// Why an entry could not be planned.
#[derive(Debug, PartialEq, Eq)]
pub enum PlanError {
    /// The entry's path does not lie under the source root.
    OutsideSource,
}

/// What one job came to.
#[derive(Debug, PartialEq, Eq)]
pub enum TransferOutcome {
    Success,
    Failure { path: PathParts, error: TransferError },
}

/// What the run does once every job is over.
#[derive(Debug, PartialEq, Eq)]
pub enum RunVerdict {
    /// Every job succeeded: remove the source file or tree.
    RemoveSource,
    /// Some job failed: keep the source and report the failed jobs, given by
    /// their indices in increasing order.
    KeepSource { failed: Vec<usize> },
}

/// The components of a path, as byte sequences.
pub open spec fn parts_view(p: PathParts) -> Seq<Seq<u8>> {
    p@.map_values(|c: Vec<u8>| c@)
}

/// `root` is a leading part of `path`.
pub open spec fn is_under(path: Seq<Seq<u8>>, root: Seq<Seq<u8>>) -> bool {
    root.len() <= path.len() && path.take(root.len() as int) == root
}

/// The plan for an entry, given as what it holds.
pub open spec fn entry_plan_spec(
    source_root: Seq<Seq<u8>>,
    destination_root: Seq<Seq<u8>>,
    source_is_file: bool,
    path: Seq<Seq<u8>>,
    is_file: bool,
    is_symlink: bool,
) -> Option<(Seq<Seq<u8>>, Seq<Seq<u8>>)> {
    if is_symlink || !is_file || !is_under(path, source_root) {
        None
    } else if source_is_file {
        Some((source_root, destination_root))
    } else {
        let rel = path.skip(source_root.len() as int);
        Some((source_root + rel, destination_root + rel))
    }
}

fn copy_bytes(b: &Vec<u8>) -> (r: Vec<u8>)
    ensures
        r@ == b@,
{
    let mut r: Vec<u8> = Vec::new();
    let mut i: usize = 0;
    while i < b.len()
        invariant
            i <= b@.len(),
            r@ == b@.take(i as int),
        decreases b@.len() - i,
    {
        r.push(b[i]);
        i = i + 1;
        assert(r@ =~= b@.take(i as int));
    }
    assert(b@.take(i as int) =~= b@);
    r
}

fn bytes_equal(a: &Vec<u8>, b: &Vec<u8>) -> (r: bool)
    ensures
        r == (a@ == b@),
{
    if a.len() != b.len() {
        return false;
    }
    let mut i: usize = 0;
    while i < a.len()
        invariant
            a@.len() == b@.len(),
            i <= a@.len(),
            forall|k: int| 0 <= k < i ==> a@[k] == b@[k],
        decreases a@.len() - i,
    {
        if a[i] != b[i] {
            return false;
        }
        i = i + 1;
    }
    assert(a@ =~= b@);
    true
}

/// Appends the components `parts[from..]` to `out`.
fn append_parts(out: &mut PathParts, parts: &PathParts, from: usize)
    requires
        from <= parts@.len(),
    ensures
        parts_view(*final(out)) == parts_view(*old(out)) + parts_view(*parts).skip(from as int),
{
    let mut i: usize = from;
    while i < parts.len()
        invariant
            from <= i <= parts@.len(),
            parts_view(*out) == parts_view(*old(out)) + parts_view(*parts).subrange(
                from as int,
                i as int,
            ),
        decreases parts@.len() - i,
    {
        let ghost before = parts_view(*out);
        let part = copy_bytes(&parts[i]);
        out.push(part);
        assert(parts_view(*out) =~= before.push(parts_view(*parts)[i as int]));
        assert(parts_view(*parts).subrange(from as int, i + 1) =~= parts_view(*parts).subrange(
            from as int,
            i as int,
        ).push(parts_view(*parts)[i as int]));
        i = i + 1;
        assert(parts_view(*out) =~= parts_view(*old(out)) + parts_view(*parts).subrange(
            from as int,
            i as int,
        ));
    }
    assert(parts_view(*parts).subrange(from as int, i as int) =~= parts_view(*parts).skip(
        from as int,
    ));
}

/// A copy of a path.
pub fn copy_parts(p: &PathParts) -> (r: PathParts)
    ensures
        parts_view(r) == parts_view(*p),
{
    let mut r: PathParts = Vec::new();
    append_parts(&mut r, p, 0);
    assert(parts_view(*p).skip(0) =~= parts_view(*p));
    assert(parts_view(r) =~= parts_view(*p));
    r
}

/// Whether `root` is a leading part of `path`.
pub fn starts_with(path: &PathParts, root: &PathParts) -> (r: bool)
    ensures
        r == is_under(parts_view(*path), parts_view(*root)),
{
    if root.len() > path.len() {
        return false;
    }
    let mut i: usize = 0;
    while i < root.len()
        invariant
            root@.len() <= path@.len(),
            i <= root@.len(),
            forall|k: int| 0 <= k < i ==> parts_view(*path)[k] == parts_view(*root)[k],
        decreases root@.len() - i,
    {
        if !bytes_equal(&path[i], &root[i]) {
            assert(parts_view(*path).take(root@.len() as int)[i as int] != parts_view(*root)[i as int]);
            return false;
        }
        i = i + 1;
    }
    assert(parts_view(*path).take(root@.len() as int) =~= parts_view(*root));
    true
}

/// Decides what becomes of one entry found under `source_root`. A symbolic
/// link is reported and skipped; anything else that is not a regular file is
/// skipped. A regular file becomes a job: for a source that is a single file,
/// from the source to the destination as given; otherwise from the file to
/// the same relative path under `destination_root`.
pub fn plan_entry(
    source_root: &PathParts,
    destination_root: &PathParts,
    source_is_file: bool,
    entry: &Entry,
) -> (r: Result<EntryPlan, PlanError>)
    ensures
        entry.is_symlink ==> r == Ok::<EntryPlan, PlanError>(EntryPlan::WarnSymlink),
        !entry.is_symlink && !entry.is_file ==> r == Ok::<EntryPlan, PlanError>(EntryPlan::Skip),
        !entry.is_symlink && entry.is_file && !is_under(parts_view(entry.path), parts_view(*source_root))
            ==> r == Err::<EntryPlan, PlanError>(PlanError::OutsideSource),
        r matches Ok(EntryPlan::Move(job)) ==> entry_plan_spec(
            parts_view(*source_root),
            parts_view(*destination_root),
            source_is_file,
            parts_view(entry.path),
            entry.is_file,
            entry.is_symlink,
        ) == Some((parts_view(job.source), parts_view(job.destination))),
        entry_plan_spec(
            parts_view(*source_root),
            parts_view(*destination_root),
            source_is_file,
            parts_view(entry.path),
            entry.is_file,
            entry.is_symlink,
        ) is Some ==> r matches Ok(EntryPlan::Move(_)),
{
    if entry.is_symlink {
        return Ok(EntryPlan::WarnSymlink);
    }
    if !entry.is_file {
        return Ok(EntryPlan::Skip);
    }
    if !starts_with(&entry.path, source_root) {
        return Err(PlanError::OutsideSource);
    }
    if source_is_file {
        return Ok(EntryPlan::Move(MoveJob {
            source: copy_parts(source_root),
            destination: copy_parts(destination_root),
        }));
    }
    let mut source = copy_parts(source_root);
    append_parts(&mut source, &entry.path, source_root.len());
    let mut destination = copy_parts(destination_root);
    append_parts(&mut destination, &entry.path, source_root.len());
    Ok(EntryPlan::Move(MoveJob { source, destination }))
}

/// Every outcome is a success.
pub open spec fn all_success(outcomes: Seq<TransferOutcome>) -> bool {
    forall|i: int| 0 <= i < outcomes.len() ==> outcomes[i] is Success
}

/// Decides what a run does once all its jobs are over: remove the source
/// exactly when every job succeeded, and otherwise keep it and name each
/// failed job.
pub fn conclude(outcomes: &Vec<TransferOutcome>) -> (r: RunVerdict)
    ensures
        (r is RemoveSource) == all_success(outcomes@),
        r matches RunVerdict::KeepSource { failed } ==> {
            &&& forall|k: int| 0 <= k < failed@.len() ==> (failed@[k] as int) < outcomes@.len()
                && outcomes@[failed@[k] as int] is Failure
            &&& forall|i: int| 0 <= i < outcomes@.len() && outcomes@[i] is Failure
                ==> exists|k: int| 0 <= k < failed@.len() && failed@[k] == i
            &&& forall|k: int, l: int| 0 <= k < l < failed@.len() ==> failed@[k] < failed@[l]
        },
{
    let mut failed: Vec<usize> = Vec::new();
    let mut i: usize = 0;
    while i < outcomes.len()
        invariant
            i <= outcomes@.len(),
            forall|k: int| 0 <= k < failed@.len() ==> (failed@[k] as int) < i
                && outcomes@[failed@[k] as int] is Failure,
            forall|j: int| 0 <= j < i && outcomes@[j] is Failure
                ==> exists|k: int| 0 <= k < failed@.len() && failed@[k] == j,
            forall|k: int, l: int| 0 <= k < l < failed@.len() ==> failed@[k] < failed@[l],
        decreases outcomes@.len() - i,
    {
        let ghost old_failed = failed@;
        if let TransferOutcome::Failure { .. } = &outcomes[i] {
            failed.push(i);
            assert(failed@[failed@.len() - 1] == i);
        }
        assert forall|j: int| 0 <= j <= i && outcomes@[j] is Failure
            implies exists|k: int| 0 <= k < failed@.len() && failed@[k] == j by {
            if j < i {
                let k = choose|k: int| 0 <= k < old_failed.len() && old_failed[k] == j;
                assert(failed@[k] == j);
            } else {
                assert(failed@[failed@.len() - 1] == j);
            }
        }
        i = i + 1;
    }
    if failed.len() == 0 {
        assert(all_success(outcomes@)) by {
            assert forall|j: int| 0 <= j < outcomes@.len() implies outcomes@[j] is Success by {
                if outcomes@[j] is Failure {
                    let k = choose|k: int| 0 <= k < failed@.len() && failed@[k] == j;
                }
            }
        }
        RunVerdict::RemoveSource
    } else {
        assert(outcomes@[failed@[0] as int] is Failure);
        RunVerdict::KeepSource { failed }
    }
}

/// `o` is what a task that ended in `state` reports.
pub open spec fn reports(state: TaskState, o: TransferOutcome) -> bool {
    &&& state.is_terminal()
    &&& (o is Success) == (state is Succeeded)
    &&& state matches TaskState::Failed(e) ==> o matches TransferOutcome::Failure { error, .. } && error == e
}

/// The outcome of the job that moves `path`, once its task is over.
pub fn task_outcome(path: PathParts, state: TaskState) -> (r: Option<TransferOutcome>)
    ensures
        r is None <==> !state.is_terminal(),
        r matches Some(o) ==> reports(state, o),
        r matches Some(TransferOutcome::Failure { path: p, .. }) ==> p == path,
{
    match state {
        TaskState::Succeeded => Some(TransferOutcome::Success),
        TaskState::Failed(error) => Some(TransferOutcome::Failure { path, error }),
        _ => None,
    }
}

/// The removal of the source of the file whose task saw `events` was
/// reported done.
pub open spec fn source_removed(events: Seq<TaskEvent>) -> bool {
    exists|k: int| removal_done_at(events, k)
}

/// A run removes its source exactly when, for every file, the removal of the
/// file's source was reported done; and any job that reports success had its
/// own source removed, whether or not the run as a whole succeeded.
pub proof fn lemma_source_removed_iff_every_file_moved(
    runs: Seq<Seq<TaskEvent>>,
    outcomes: Seq<TransferOutcome>,
)
    requires
        outcomes.len() == runs.len(),
        forall|i: int| 0 <= i < runs.len() ==> reports(state_after(#[trigger] runs[i]), outcomes[i]),
    ensures
        all_success(outcomes) <==> forall|i: int| 0 <= i < runs.len() ==> source_removed(#[trigger] runs[i]),
        forall|i: int| 0 <= i < runs.len() && #[trigger] outcomes[i] is Success ==> source_removed(runs[i]),
{
    assert forall|i: int| 0 <= i < runs.len() implies (#[trigger] outcomes[i] is Success) == source_removed(runs[i]) by {
        lemma_success_iff_source_removed(runs[i]);
        assert(reports(state_after(runs[i]), outcomes[i]));
    }
    if forall|i: int| 0 <= i < runs.len() ==> source_removed(#[trigger] runs[i]) {
        assert forall|i: int| 0 <= i < outcomes.len() implies #[trigger] outcomes[i] is Success by {
            assert(source_removed(runs[i]));
        }
    }
    if all_success(outcomes) {
        assert forall|i: int| 0 <= i < runs.len() implies source_removed(#[trigger] runs[i]) by {
            assert(outcomes[i] is Success);
        }
    }
}

} // verus!

//! Change notifications and what the orchestrator does with each.

use vstd::prelude::*;

verus! {

/// What happened to a watched path.
#[derive(Debug, Clone, Copy, PartialEq, Eq, Structural)]
pub enum ChangeKind {
    /// The path was created.
    Created,
    /// The path was modified.
    Modified,
    /// The path was removed.
    Removed,
    /// Anything else the watcher reports, such as an access.
    Other,
}

/// A notification that a watched path changed.
#[derive(Debug)]
pub struct ChangeEvent {
    /// The path that changed.
    pub path: String,
    /// What happened to it.
    pub kind: ChangeKind,
}

/// What the orchestrator does with a notification.
#[derive(Debug, Clone, Copy, PartialEq, Eq, Structural)]
pub enum Dispatch {
    /// Run the pipeline for the path.
    Process,
    /// Take note of the removal; nothing is deleted remotely.
    NoteRemoval,
    /// Nothing.
    Ignore,
}

/// The rule: a created or modified path is processed where it is a regular
/// file; a removed path is noted; everything else is ignored.
pub open spec fn dispatch_of(kind: ChangeKind, is_regular_file: bool) -> Dispatch {
    match kind {
        ChangeKind::Created | ChangeKind::Modified => if is_regular_file {
            Dispatch::Process
        } else {
            Dispatch::Ignore
        },
        ChangeKind::Removed => Dispatch::NoteRemoval,
        ChangeKind::Other => Dispatch::Ignore,
    }
}

/// Decides what to do with one notification, given whether its path is a
/// regular file at this moment.
pub fn dispatch(event: &ChangeEvent, is_regular_file: bool) -> (decision: Dispatch)
    ensures
        decision == dispatch_of(event.kind, is_regular_file),
{
    match event.kind {
        ChangeKind::Created | ChangeKind::Modified => {
            if is_regular_file {
                Dispatch::Process
            } else {
                Dispatch::Ignore
            }
        },
        ChangeKind::Removed => Dispatch::NoteRemoval,
        ChangeKind::Other => Dispatch::Ignore,
    }
}

/// True when the notification at position `i` leads to a pipeline run. A
/// path for which no flag is given counts as no regular file.
pub open spec fn runs(events: Seq<ChangeEvent>, regular: Seq<bool>, i: int) -> bool {
    &&& 0 <= i < events.len()
    &&& dispatch_of(events[i].kind, i < regular.len() && regular[i]) == Dispatch::Process
}

/// The positions, among the first `n` notifications, of those that lead to
/// a pipeline run, in the order of arrival.
pub open spec fn work_list(events: Seq<ChangeEvent>, regular: Seq<bool>, n: nat) -> Seq<usize>
    decreases n,
{
    if n == 0 {
        Seq::empty()
    } else {
        let rest = work_list(events, regular, (n - 1) as nat);
        if runs(events, regular, n - 1) {
            rest.push((n - 1) as usize)
        } else {
            rest
        }
    }
}

/// Goes through a batch of notifications in the order of arrival and lists
/// the positions of those whose path is to be run through the pipeline.
/// `regular[i]` tells whether the path of `events[i]` is a regular file.
pub fn handle_events(events: &Vec<ChangeEvent>, regular: &Vec<bool>) -> (work: Vec<usize>)
    ensures
        work@ == work_list(events@, regular@, events@.len()),
{
    let mut work: Vec<usize> = Vec::new();
    let mut i: usize = 0;
    while i < events.len()
        invariant
            i <= events@.len(),
            work@ == work_list(events@, regular@, i as nat),
        decreases events@.len() - i,
    {
        let is_regular_file = i < regular.len() && regular[i];
        if dispatch(&events[i], is_regular_file) == Dispatch::Process {
            work.push(i);
        }
        i += 1;
    }
    work
}

/// Every notification is considered exactly once and in order: each
/// position in the work list leads to a run, each position that leads to a
/// run is in the list, and the list is strictly increasing.
pub proof fn lemma_work_list_is_exact(events: Seq<ChangeEvent>, regular: Seq<bool>, n: nat)
    requires
        n <= events.len(),
        events.len() <= usize::MAX,
    ensures
        forall|k: int|
            0 <= k < work_list(events, regular, n).len() ==> {
                &&& #[trigger] work_list(events, regular, n)[k] < n
                &&& runs(events, regular, work_list(events, regular, n)[k] as int)
            },
        forall|i: int|
            0 <= i < n && #[trigger] runs(events, regular, i) ==> exists|k: int|
                0 <= k < work_list(events, regular, n).len() && #[trigger] work_list(
                    events,
                    regular,
                    n,
                )[k] == i,
        forall|j: int, k: int|
            0 <= j < k < work_list(events, regular, n).len() ==> work_list(events, regular, n)[j]
                < work_list(events, regular, n)[k],
    decreases n,
{
    if n > 0 {
        lemma_work_list_is_exact(events, regular, (n - 1) as nat);
        let rest = work_list(events, regular, (n - 1) as nat);
        let all = work_list(events, regular, n);
        assert forall|i: int| 0 <= i < n && #[trigger] runs(events, regular, i) implies exists|
            k: int,
        |
            0 <= k < all.len() && #[trigger] all[k] == i by {
            if i < n - 1 {
                let k = choose|k: int| 0 <= k < rest.len() && #[trigger] rest[k] == i;
                assert(all[k] == i);
            } else {
                assert(all[all.len() - 1] == i);
            }
        }
    }
}

} // verus!

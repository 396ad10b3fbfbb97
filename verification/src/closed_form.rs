//! The projection in closed form: which events of a walk are listed, said of
//! the walk alone and without the state of the projector, and the proof that
//! the projector lists exactly those.

use vstd::prelude::*;
use crate::projector::{walk, ErrorPolicy, ErrorView, Phase, ProjectionView, WalkState, flat_tree};
use crate::theorems::{failure_is_final, invalid_root_fails_the_projection, run_splits};
use crate::walk::WalkEvent;

verus! {

/// Whether the event at `j` is a hidden entry.
pub open spec fn hides(events: Seq<WalkEvent>, j: int) -> bool {
    events[j] matches WalkEvent::Entry(entry) && entry.hidden()
}

/// Whether the hidden entry at `j`, which is not the root, holds every event
/// between itself and `end`: each of them is deeper than it.
pub open spec fn reaches(events: Seq<WalkEvent>, j: int, end: int) -> bool {
    &&& 1 <= j < end
    &&& hides(events, j)
    &&& forall|k: int| j < k < end ==> (#[trigger] events[k]).depth() > events[j].depth()
}

/// Whether the event at `i` lies inside a hidden entry: some hidden entry
/// before it holds everything up to it and `i` itself.
pub open spec fn covered(events: Seq<WalkEvent>, i: int) -> bool {
    exists|j: int| #[trigger] reaches(events, j, i) && events[i].depth() > events[j].depth()
}

/// Whether the event at `i` is listed: an entry below the root that is not
/// hidden and lies inside no hidden entry.
pub open spec fn listed(events: Seq<WalkEvent>, i: int) -> bool {
    &&& 1 <= i < events.len()
    &&& events[i] matches WalkEvent::Entry(entry) && !entry.hidden()
    &&& !covered(events, i)
}

/// Whether the event at `i` is a failure that counts: one that lies inside
/// no hidden entry.
pub open spec fn noted(events: Seq<WalkEvent>, i: int) -> bool {
    &&& 1 <= i < events.len()
    &&& events[i] is Failure
    &&& !covered(events, i)
}

/// The names of the listed events among the first `end`, in order.
pub open spec fn listed_names(events: Seq<WalkEvent>, end: int) -> Seq<Seq<char>>
    decreases end,
{
    if end <= 1 {
        Seq::empty()
    } else if listed(events, end - 1) {
        listed_names(events, end - 1).push(events[end - 1]->Entry_0.name@)
    } else {
        listed_names(events, end - 1)
    }
}

/// The paths of the failures that count among the first `end` events, in
/// order.
pub open spec fn noted_paths(events: Seq<WalkEvent>, end: int) -> Seq<Seq<char>>
    decreases end,
{
    if end <= 1 {
        Seq::empty()
    } else if noted(events, end - 1) {
        noted_paths(events, end - 1).push(events[end - 1]->Failure_path@)
    } else {
        noted_paths(events, end - 1)
    }
}

/// After the first `end` events of a walk that begins with a directory, and
/// in which no failure has counted if the policy is `Abort`: the names are
/// the listed ones, the skipped paths are those of the failures that count,
/// and the depth that the projector keeps is that of the shallowest hidden
/// entry that still reaches up to here.
proof fn walk_tracks_the_hidden_entry(policy: ErrorPolicy, events: Seq<WalkEvent>, end: int)
    requires
        1 <= end <= events.len(),
        events[0] matches WalkEvent::Entry(entry) && entry.opens_walk(),
        policy == ErrorPolicy::Abort ==> forall|i: int| 1 <= i < end ==> !noted(events, i),
    ensures
        walk(policy, events.take(end)).phase is Walking,
        walk(policy, events.take(end)).policy == policy,
        walk(policy, events.take(end)).names == listed_names(events, end),
        walk(policy, events.take(end)).skipped == noted_paths(events, end),
        walk(policy, events.take(end)).pruning is None ==> forall|j: int|
            !reaches(events, j, end),
        walk(policy, events.take(end)).pruning matches Some(depth) ==> {
            &&& exists|j: int| #[trigger] reaches(events, j, end) && events[j].depth() == depth
            &&& forall|j: int| #[trigger] reaches(events, j, end) ==> events[j].depth() >= depth
        },
    decreases end,
{
    let start = WalkState::start(policy);
    let upto = events.take(end);
    assert(upto.drop_last() =~= events.take(end - 1));
    assert(upto.last() == events[end - 1]);
    if end == 1 {
        assert(events.take(0) =~= Seq::<WalkEvent>::empty());
        assert(start.run(events.take(0)) == start);
        assert(listed_names(events, 1) =~= Seq::<Seq<char>>::empty());
        assert(noted_paths(events, 1) =~= Seq::<Seq<char>>::empty());
    } else {
        let n = end - 1;
        walk_tracks_the_hidden_entry(policy, events, n);
        let before = walk(policy, events.take(n));
        let event = events[n];
        let after = before.advance(event);
        assert(walk(policy, upto) == after);
        if before.passes_over(event) {
            let depth = before.pruning->0;
            let j = choose|j: int| #[trigger] reaches(events, j, n) && events[j].depth() == depth;
            assert(reaches(events, j, n) && event.depth() > events[j].depth());
            assert(covered(events, n));
            assert(reaches(events, j, end));
            assert forall|other: int| #[trigger] reaches(events, other, end) implies events[other].depth()
                >= depth by {
                if other < n {
                    assert(reaches(events, other, n));
                }
            }
        } else {
            assert(!covered(events, n)) by {
                if covered(events, n) {
                    let j = choose|j: int| #[trigger]
                        reaches(events, j, n) && events[n].depth() > events[j].depth();
                    assert(reaches(events, j, n));
                }
            }
            assert forall|other: int| other < n implies !reaches(events, other, end) by {
                if reaches(events, other, end) {
                    assert(events[n].depth() > events[other].depth());
                    assert(reaches(events, other, n));
                    assert(covered(events, n));
                }
            }
            if hides(events, n) {
                assert(reaches(events, n, end));
                assert forall|other: int| #[trigger] reaches(events, other, end) implies events[other].depth()
                    >= event.depth() by {
                    assert(other == n);
                }
            } else {
                assert(noted(events, n) ==> policy == ErrorPolicy::Skip);
                assert forall|other: int| !reaches(events, other, end) by {
                    assert(other < n || !reaches(events, other, end));
                }
            }
        }
    }
}

/// The projector lists what the closed form lists. For a walk that begins
/// with a directory, and in which no failure counts if the policy is
/// `Abort`, the projection succeeds; the children of its root are, in order,
/// the listed events, each as a leaf under its name; and what it skipped are
/// the failures that count.
pub proof fn projection_in_closed_form(policy: ErrorPolicy, events: Seq<WalkEvent>)
    requires
        events.len() > 0,
        events[0] matches WalkEvent::Entry(entry) && entry.opens_walk(),
        policy == ErrorPolicy::Abort ==> forall|i: int| !noted(events, i),
    ensures
        walk(policy, events).outcome() == Ok::<ProjectionView, ErrorView>(
            ProjectionView {
                tree: flat_tree(listed_names(events, events.len() as int)),
                skipped: noted_paths(events, events.len() as int),
            },
        ),
{
    assert(events.take(events.len() as int) =~= events);
    walk_tracks_the_hidden_entry(policy, events, events.len() as int);
}

/// Under `Abort` the projection fails with the first failure that counts:
/// where the failure at `i` counts and none before it does, the outcome is
/// `Traversal` with the path of that failure, whatever follows.
pub proof fn abort_reports_the_first_failure_that_counts(events: Seq<WalkEvent>, i: int)
    requires
        events.len() > 0,
        events[0] matches WalkEvent::Entry(entry) && entry.opens_walk(),
        noted(events, i),
        forall|k: int| 1 <= k < i ==> !noted(events, k),
    ensures
        walk(ErrorPolicy::Abort, events).outcome() == Err::<ProjectionView, ErrorView>(
            ErrorView::Traversal { path: events[i]->Failure_path@ },
        ),
{
    let policy = ErrorPolicy::Abort;
    let start = WalkState::start(policy);
    walk_tracks_the_hidden_entry(policy, events, i);
    let before = walk(policy, events.take(i));
    let event = events[i];
    assert(!before.passes_over(event)) by {
        if before.passes_over(event) {
            let depth = before.pruning->0;
            let j = choose|j: int| #[trigger] reaches(events, j, i) && events[j].depth() == depth;
            assert(reaches(events, j, i) && event.depth() > events[j].depth());
            assert(covered(events, i));
        }
    }
    let failed = before.advance(event);
    assert(failed.phase == Phase::Failed(ErrorView::Traversal { path: event->Failure_path@ }));
    let upto = events.take(i + 1);
    assert(upto.drop_last() =~= events.take(i));
    assert(upto.last() == event);
    assert(walk(policy, upto) == failed);
    let rest = events.subrange(i + 1, events.len() as int);
    assert(events =~= upto + rest);
    run_splits(start, upto, rest);
    failure_is_final(failed, rest);
}

/// Whether the failure at `i` counts and none before it does.
pub open spec fn first_noted_at(events: Seq<WalkEvent>, i: int) -> bool {
    noted(events, i) && forall|k: int| 1 <= k < i ==> !noted(events, k)
}

/// What projecting `events` under `policy` yields, in closed form.
///
/// A walk that does not begin with a directory at depth 0 yields
/// `InvalidRoot`. Under `Abort` a walk with a failure that counts yields
/// `Traversal` with the path of the first such failure. Any other walk yields
/// the flat tree of the listed names, together with the paths of the
/// failures that count.
pub open spec fn projected(policy: ErrorPolicy, events: Seq<WalkEvent>) -> Result<
    ProjectionView,
    ErrorView,
> {
    if events.len() == 0 || !(events[0] matches WalkEvent::Entry(entry) && entry.opens_walk()) {
        Err(ErrorView::InvalidRoot)
    } else if policy == ErrorPolicy::Abort && exists|i: int| noted(events, i) {
        Err(
            ErrorView::Traversal {
                path: events[choose|i: int| first_noted_at(events, i)]->Failure_path@,
            },
        )
    } else {
        Ok(
            ProjectionView {
                tree: flat_tree(listed_names(events, events.len() as int)),
                skipped: noted_paths(events, events.len() as int),
            },
        )
    }
}

/// Where a failure counts, there is a first one that does.
proof fn some_failure_counts_first(events: Seq<WalkEvent>, i: int)
    requires
        noted(events, i),
    ensures
        exists|m: int| first_noted_at(events, m),
    decreases i,
{
    if exists|k: int| 1 <= k < i && noted(events, k) {
        let k = choose|k: int| 1 <= k < i && noted(events, k);
        some_failure_counts_first(events, k);
    } else {
        assert(first_noted_at(events, i));
    }
}

/// The projector yields what the closed form says, for every walk and under
/// either policy.
pub proof fn walk_yields_the_closed_form(policy: ErrorPolicy, events: Seq<WalkEvent>)
    ensures
        walk(policy, events).outcome() == projected(policy, events),
{
    if events.len() == 0 || !(events[0] matches WalkEvent::Entry(entry) && entry.opens_walk()) {
        invalid_root_fails_the_projection(policy, events);
    } else if policy == ErrorPolicy::Abort && exists|i: int| noted(events, i) {
        let i = choose|i: int| noted(events, i);
        some_failure_counts_first(events, i);
        let first = choose|i: int| first_noted_at(events, i);
        abort_reports_the_first_failure_that_counts(events, first);
    } else {
        projection_in_closed_form(policy, events);
    }
}

} // verus!

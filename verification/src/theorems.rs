//! What holds of every projection, proved over the model of the walk.

use vstd::prelude::*;
use crate::entry::TreeView;
use crate::projector::{
    flat_tree, outcome_view, walk, ErrorPolicy, ErrorView, Phase, Projection, ProjectionError,
    ProjectionView, WalkState,
};
use crate::walk::{EntryKind, WalkEntry, WalkEvent};

verus! {

/// The names of the events behind the first one, for a walk in which each of
/// them is an entry.
pub open spec fn names_below_root(events: Seq<WalkEvent>) -> Seq<Seq<char>> {
    Seq::new((events.len() - 1) as nat, |i: int| events[i + 1]->Entry_0.name@)
}

/// Running over two stretches of events is running over the first and then
/// over the second.
pub proof fn run_splits(state: WalkState, first: Seq<WalkEvent>, second: Seq<WalkEvent>)
    ensures
        state.run(first + second) == state.run(first).run(second),
    decreases second.len(),
{
    if second.len() == 0 {
        assert(first + second =~= first);
    } else {
        run_splits(state, first, second.drop_last());
        assert((first + second).drop_last() =~= first + second.drop_last());
        assert((first + second).last() == second.last());
    }
}

/// Running over one event is advancing by it.
pub proof fn run_of_one(state: WalkState, event: WalkEvent)
    ensures
        state.run(seq![event]) == state.advance(event),
{
    assert(seq![event].drop_last() =~= Seq::<WalkEvent>::empty());
    assert(state.run(seq![event].drop_last()) == state);
}

/// A projection that has failed stays as it is, whatever follows.
pub proof fn failure_is_final(state: WalkState, events: Seq<WalkEvent>)
    requires
        state.phase is Failed,
    ensures
        state.run(events) == state,
    decreases events.len(),
{
    if events.len() > 0 {
        failure_is_final(state, events.drop_last());
    }
}

/// Events that lie deeper than the hidden entry that is being passed over
/// change nothing.
pub proof fn deeper_events_are_passed_over(state: WalkState, depth: nat, events: Seq<WalkEvent>)
    requires
        state.phase is Walking,
        state.pruning == Some(depth),
        forall|i: int| 0 <= i < events.len() ==> (#[trigger] events[i]).depth() > depth,
    ensures
        state.run(events) == state,
    decreases events.len(),
{
    if events.len() > 0 {
        deeper_events_are_passed_over(state, depth, events.drop_last());
        assert(events.last() == events[events.len() - 1]);
    }
}

/// What no event undoes: the policy stays; a walk that has begun stays
/// begun; names and skipped paths are only added behind those already there,
/// and under `Abort` no path is; a walk that is under way has been so since
/// it began.
pub proof fn run_keeps_its_course(state: WalkState, events: Seq<WalkEvent>)
    ensures
        state.run(events).policy == state.policy,
        events.len() > 0 ==> !(state.run(events).phase is AwaitingRoot),
        !(state.phase is AwaitingRoot) ==> !(state.run(events).phase is AwaitingRoot),
        state.policy == ErrorPolicy::Abort ==> state.run(events).skipped == state.skipped,
        state.names.is_prefix_of(state.run(events).names),
        state.skipped.is_prefix_of(state.run(events).skipped),
        state.run(events).phase is Walking && !(state.phase is AwaitingRoot) ==> state.phase is Walking,
    decreases events.len(),
{
    if events.len() > 0 {
        run_keeps_its_course(state, events.drop_last());
    }
}

/// A directory that holds nothing but files, whatever their names: the
/// projection succeeds under either policy, nothing is skipped, and the root
/// has exactly one child per file, in the order of the walk, each a leaf
/// that bears the file's name.
pub proof fn flat_directory_lists_every_file(policy: ErrorPolicy, events: Seq<WalkEvent>)
    requires
        events.len() > 0,
        events[0] is Entry,
        events[0]->Entry_0.opens_walk(),
        forall|i: int|
            1 <= i < events.len() ==> (#[trigger] events[i]) is Entry
                && events[i]->Entry_0.kind == EntryKind::File,
    ensures
        walk(policy, events).outcome() == Ok::<ProjectionView, ErrorView>(
            ProjectionView { tree: flat_tree(names_below_root(events)), skipped: Seq::empty() },
        ),
        flat_tree(names_below_root(events)).children.len() == events.len() - 1,
        forall|i: int|
            1 <= i < events.len() ==> flat_tree(names_below_root(events)).children[i - 1]
                == TreeView::leaf((#[trigger] events[i])->Entry_0.name@),
{
    files_are_listed_in_order(policy, events);
    let state = walk(policy, events);
    assert(state.outcome() == Ok::<ProjectionView, ErrorView>(
        ProjectionView { tree: flat_tree(names_below_root(events)), skipped: Seq::empty() },
    ));
    assert forall|i: int| 1 <= i < events.len() implies flat_tree(
        names_below_root(events),
    ).children[i - 1] == TreeView::leaf((#[trigger] events[i])->Entry_0.name@) by {
        assert(names_below_root(events)[i - 1] == events[i]->Entry_0.name@);
    }
}

proof fn files_are_listed_in_order(policy: ErrorPolicy, events: Seq<WalkEvent>)
    requires
        events.len() > 0,
        events[0] is Entry,
        events[0]->Entry_0.opens_walk(),
        forall|i: int|
            1 <= i < events.len() ==> (#[trigger] events[i]) is Entry
                && events[i]->Entry_0.kind == EntryKind::File,
    ensures
        walk(policy, events) == (WalkState {
            policy,
            phase: Phase::Walking,
            names: names_below_root(events),
            skipped: Seq::empty(),
            pruning: None,
        }),
    decreases events.len(),
{
    let before = events.drop_last();
    if events.len() == 1 {
        assert(before =~= Seq::<WalkEvent>::empty());
        assert(walk(policy, before) == WalkState::start(policy));
        assert(events.last() == events[0]);
        assert(names_below_root(events) =~= Seq::<Seq<char>>::empty());
    } else {
        assert(before[0] == events[0]);
        assert forall|i: int| 1 <= i < before.len() implies (#[trigger] before[i]) is Entry
            && before[i]->Entry_0.kind == EntryKind::File by {
            assert(before[i] == events[i]);
        }
        files_are_listed_in_order(policy, before);
        let last = events[events.len() - 1];
        assert(events.last() == last);
        assert(last is Entry && last->Entry_0.kind == EntryKind::File);
        assert(!last->Entry_0.hidden());
        assert(names_below_root(events) =~= names_below_root(before).push(last->Entry_0.name@));
    }
}

/// A hidden entry below the root and all that lies inside it leave no trace:
/// after them the names, the skipped paths and the phase are what they were
/// before, and whatever follows is projected as if the contents had not been
/// there.
pub proof fn hidden_subtree_leaves_no_trace(
    policy: ErrorPolicy,
    before: Seq<WalkEvent>,
    hidden: WalkEntry,
    inside: Seq<WalkEvent>,
    after: Seq<WalkEvent>,
)
    requires
        before.len() > 0,
        hidden.hidden(),
        forall|i: int| 0 <= i < inside.len() ==> (#[trigger] inside[i]).depth() > hidden.depth,
    ensures
        walk(policy, before.push(WalkEvent::Entry(hidden)) + inside).names == walk(
            policy,
            before,
        ).names,
        walk(policy, before.push(WalkEvent::Entry(hidden)) + inside).skipped == walk(
            policy,
            before,
        ).skipped,
        walk(policy, before.push(WalkEvent::Entry(hidden)) + inside).phase == walk(
            policy,
            before,
        ).phase,
        walk(policy, before.push(WalkEvent::Entry(hidden)) + inside + after) == walk(
            policy,
            before.push(WalkEvent::Entry(hidden)) + after,
        ),
{
    let start = WalkState::start(policy);
    let event = WalkEvent::Entry(hidden);
    let met = before.push(event);
    let reached = start.run(before);
    let entered = start.run(met);
    assert(met.drop_last() =~= before);
    assert(met.last() == event);
    assert(entered == reached.advance(event));
    run_keeps_its_course(start, before);
    run_splits(start, met, inside);
    match reached.phase {
        Phase::AwaitingRoot => {},
        Phase::Failed(_) => {
            failure_is_final(entered, inside);
        },
        Phase::Walking => {
            if reached.passes_over(event) {
                let depth = reached.pruning->0;
                assert forall|i: int| 0 <= i < inside.len() implies (#[trigger] inside[i]).depth()
                    > depth by {}
                deeper_events_are_passed_over(entered, depth, inside);
            } else {
                deeper_events_are_passed_over(entered, hidden.depth as nat, inside);
            }
        },
    }
    assert(entered.run(inside) == entered);
    run_splits(start, met + inside, after);
    run_splits(start, met, after);
}

/// A directory without one of its hidden entries projects to the same
/// result: where the events that follow the hidden entry and its contents
/// begin no deeper than the hidden entry, the outcome is that of the walk
/// from which the hidden entry and its contents are taken out.
pub proof fn hidden_subtree_can_be_left_out(
    policy: ErrorPolicy,
    before: Seq<WalkEvent>,
    hidden: WalkEntry,
    inside: Seq<WalkEvent>,
    after: Seq<WalkEvent>,
)
    requires
        before.len() > 0,
        hidden.hidden(),
        forall|i: int| 0 <= i < inside.len() ==> (#[trigger] inside[i]).depth() > hidden.depth,
        after.len() > 0 ==> after[0].depth() <= hidden.depth,
    ensures
        walk(policy, before.push(WalkEvent::Entry(hidden)) + inside + after).outcome() == walk(
            policy,
            before + after,
        ).outcome(),
{
    let start = WalkState::start(policy);
    let event = WalkEvent::Entry(hidden);
    let met = before.push(event);
    let reached = start.run(before);
    let entered = start.run(met);
    hidden_subtree_leaves_no_trace(policy, before, hidden, inside, after);
    assert(met.drop_last() =~= before);
    assert(met.last() == event);
    assert(entered == reached.advance(event));
    run_keeps_its_course(start, before);
    run_splits(start, met, after);
    run_splits(start, before, after);
    if after.len() == 0 {
        assert(entered.run(after) == entered);
        assert(reached.run(after) == reached);
    } else {
        let next = after[0];
        let rest = after.subrange(1, after.len() as int);
        assert(after =~= seq![next] + rest);
        run_splits(entered, seq![next], rest);
        run_splits(reached, seq![next], rest);
        run_of_one(entered, next);
        run_of_one(reached, next);
        assert(entered.advance(next) == reached.advance(next));
    }
}

/// The hiding rule looks at the kind of an entry: where the walk is under
/// way and the entry is not inside a hidden one, a file is listed even if
/// its name begins with a dot, and an entry of another kind with such a name
/// is not.
pub proof fn only_files_escape_the_dot(state: WalkState, entry: WalkEntry)
    requires
        state.phase is Walking,
        !state.passes_over(WalkEvent::Entry(entry)),
        entry.name@.len() > 0,
        entry.name@[0] == '.',
    ensures
        entry.kind == EntryKind::File ==> state.advance(WalkEvent::Entry(entry)).names
            == state.names.push(entry.name@),
        entry.kind != EntryKind::File ==> state.advance(WalkEvent::Entry(entry)).names
            == state.names,
{
}

/// A file that is met outside every hidden entry is in the tree of every
/// projection that succeeds, under its own name and whatever that name is:
/// it is the child at the place that the names listed before it leave free.
pub proof fn file_outside_hidden_entries_is_listed(
    policy: ErrorPolicy,
    before: Seq<WalkEvent>,
    file: WalkEntry,
    after: Seq<WalkEvent>,
)
    requires
        before.len() > 0,
        file.kind == EntryKind::File,
        !walk(policy, before).passes_over(WalkEvent::Entry(file)),
        walk(policy, before.push(WalkEvent::Entry(file)) + after).outcome() is Ok,
    ensures
        ({
            let place = walk(policy, before).names.len() as int;
            let tree = walk(policy, before.push(WalkEvent::Entry(file)) + after).outcome()->Ok_0.tree;
            &&& place < tree.children.len()
            &&& tree.children[place] == TreeView::leaf(file.name@)
        }),
{
    let start = WalkState::start(policy);
    let event = WalkEvent::Entry(file);
    let met = before.push(event);
    let reached = start.run(before);
    let listed = start.run(met);
    assert(met.drop_last() =~= before);
    assert(met.last() == event);
    assert(listed == reached.advance(event));
    run_splits(start, met, after);
    run_keeps_its_course(start, before);
    run_keeps_its_course(start, met);
    run_keeps_its_course(listed, after);
    run_keeps_its_course(reached, seq![event]);
    run_of_one(reached, event);
    let done = listed.run(after);
    assert(done.phase is Walking);
    assert(listed.phase is Walking);
    assert(reached.phase is Walking);
    assert(listed.names == reached.names.push(file.name@));
    let place = reached.names.len() as int;
    assert(listed.names[place] == file.name@);
    assert(done.names[place] == listed.names[place]);
}

/// A walk that does not begin with a directory at depth 0, the empty walk
/// among them, fails as a whole with `InvalidRoot`, under either policy and
/// whatever follows.
pub proof fn invalid_root_fails_the_projection(policy: ErrorPolicy, events: Seq<WalkEvent>)
    requires
        events.len() == 0 || !(events[0] matches WalkEvent::Entry(entry) && entry.opens_walk()),
    ensures
        walk(policy, events).outcome() == Err::<ProjectionView, ErrorView>(ErrorView::InvalidRoot),
{
    if events.len() > 0 {
        let start = WalkState::start(policy);
        let rest = events.subrange(1, events.len() as int);
        assert(events =~= seq![events[0]] + rest);
        run_splits(start, seq![events[0]], rest);
        run_of_one(start, events[0]);
        failure_is_final(start.advance(events[0]), rest);
    }
}

/// Under `Abort` a projection that succeeds is complete: it has skipped
/// nothing.
pub proof fn abort_never_yields_a_partial_tree(events: Seq<WalkEvent>)
    ensures
        walk(ErrorPolicy::Abort, events).outcome() matches Ok(projection)
            ==> projection.skipped.len() == 0,
{
    run_keeps_its_course(WalkState::start(ErrorPolicy::Abort), events);
}

/// Projecting the same walk twice gives the same result: the same failure,
/// or trees that are equal, so that the names of their children are the same
/// as sequences and as multisets.
pub proof fn projection_is_repeatable(
    policy: ErrorPolicy,
    events: Seq<WalkEvent>,
    first: Result<Projection, ProjectionError>,
    second: Result<Projection, ProjectionError>,
)
    requires
        outcome_view(first) == walk(policy, events).outcome(),
        outcome_view(second) == walk(policy, events).outcome(),
    ensures
        outcome_view(first) == outcome_view(second),
        first is Ok <==> second is Ok,
        first is Ok ==> first->Ok_0@.tree == second->Ok_0@.tree
            && first->Ok_0@.tree.child_names().to_multiset()
            == second->Ok_0@.tree.child_names().to_multiset(),
{
}

/// Two walks of a directory that holds nothing but files, which name the
/// same files in different orders, project to trees whose children bear the
/// same names, each as often in the one as in the other.
pub proof fn order_of_files_does_not_matter(
    policy: ErrorPolicy,
    first: Seq<WalkEvent>,
    second: Seq<WalkEvent>,
)
    requires
        first.len() > 0,
        first[0] is Entry,
        first[0]->Entry_0.opens_walk(),
        forall|i: int|
            1 <= i < first.len() ==> (#[trigger] first[i]) is Entry
                && first[i]->Entry_0.kind == EntryKind::File,
        second.len() > 0,
        second[0] is Entry,
        second[0]->Entry_0.opens_walk(),
        forall|i: int|
            1 <= i < second.len() ==> (#[trigger] second[i]) is Entry
                && second[i]->Entry_0.kind == EntryKind::File,
        names_below_root(first).to_multiset() == names_below_root(second).to_multiset(),
    ensures
        walk(policy, first).outcome() is Ok,
        walk(policy, second).outcome() is Ok,
        walk(policy, first).outcome()->Ok_0.tree.child_names().to_multiset() == walk(
            policy,
            second,
        ).outcome()->Ok_0.tree.child_names().to_multiset(),
{
    flat_directory_lists_every_file(policy, first);
    flat_directory_lists_every_file(policy, second);
    assert(flat_tree(names_below_root(first)).child_names() =~= names_below_root(first));
    assert(flat_tree(names_below_root(second)).child_names() =~= names_below_root(second));
}

} // verus!

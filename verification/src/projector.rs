//! The directory projector: it turns the events of a directory walk into a
//! display tree.
//!
//! The walk itself, which reads the disk, is the caller's. The projector is
//! fed one event after the other and answers each with what the walker is to
//! do next. The result lists every entry below the root that is neither
//! hidden nor inside a hidden entry, each as a direct child of one root node
//! that stands for the walked directory: the tree is flat, whatever the depth
//! of an entry.

use vstd::prelude::*;
use crate::closed_form::{projected, walk_yields_the_closed_form};
use crate::entry::{FileEntry, TreeView};
use crate::walk::{EntryKind, WalkEntry, WalkEvent};

verus! {

/// What becomes of a walk when an entry below the root cannot be read.
#[derive(Clone, Copy, Debug, PartialEq, Eq, Structural)]
pub enum ErrorPolicy {
    /// The first such entry fails the whole projection.
    Abort,
    /// Such an entry is left out and noted; the walk goes on.
    Skip,
}

/// Why a projection failed as a whole.
#[derive(Debug, PartialEq, Eq)]
pub enum ProjectionError {
    /// The root of the walk does not exist or is not a directory.
    InvalidRoot,
    /// An entry below the root could not be read, under
    /// [`ErrorPolicy::Abort`].
    Traversal {
        /// Path of that entry, as the walker gave it.
        path: String,
    },
}

/// The mathematical value of a [`ProjectionError`].
pub enum ErrorView {
    InvalidRoot,
    Traversal { path: Seq<char> },
}

impl View for ProjectionError {
    type V = ErrorView;

    open spec fn view(&self) -> ErrorView {
        match self {
            ProjectionError::InvalidRoot => ErrorView::InvalidRoot,
            ProjectionError::Traversal { path } => ErrorView::Traversal { path: path@ },
        }
    }
}

/// A projection that produced a tree. It is complete when nothing was
/// skipped, partial otherwise.
#[derive(Debug, PartialEq, Eq)]
pub struct Projection {
    /// The root node; its children are the projected entries.
    pub tree: FileEntry,
    /// Paths of the entries that could not be read, in the order met.
    pub skipped: Vec<String>,
}

/// The mathematical value of a [`Projection`].
#[verifier::ext_equal]
pub struct ProjectionView {
    pub tree: TreeView,
    pub skipped: Seq<Seq<char>>,
}

/// The texts of a sequence of strings.
pub open spec fn texts(strings: Seq<String>) -> Seq<Seq<char>> {
    Seq::new(strings.len(), |i: int| strings[i]@)
}

impl Projection {
    /// Whether the walk was read in full: nothing had to be skipped.
    pub fn is_complete(&self) -> (complete: bool)
        ensures
            complete == (self@.skipped.len() == 0),
    {
        self.skipped.len() == 0
    }
}

impl View for Projection {
    type V = ProjectionView;

    open spec fn view(&self) -> ProjectionView {
        ProjectionView { tree: self.tree@, skipped: texts(self.skipped@) }
    }
}

/// The mathematical value of what a projection returns.
pub open spec fn outcome_view(result: Result<Projection, ProjectionError>) -> Result<
    ProjectionView,
    ErrorView,
> {
    match result {
        Ok(projection) => Ok(projection@),
        Err(error) => Err(error@),
    }
}

/// The tree with an unnamed root and one leaf per name, in order.
pub open spec fn flat_tree(names: Seq<Seq<char>>) -> TreeView {
    TreeView {
        name: Seq::empty(),
        icon: Seq::empty(),
        children: Seq::new(names.len(), |i: int| TreeView::leaf(names[i])),
    }
}

/// How far a walk has come.
pub enum Phase {
    /// No event yet: the next one has to be the root.
    AwaitingRoot,
    /// The root was a directory; entries are being collected.
    Walking,
    /// The projection has failed; further events change nothing.
    Failed(ErrorView),
}

/// The state of a projection between two events.
#[verifier::ext_equal]
pub struct WalkState {
    pub policy: ErrorPolicy,
    pub phase: Phase,
    /// Names listed so far.
    pub names: Seq<Seq<char>>,
    /// Paths skipped so far.
    pub skipped: Seq<Seq<char>>,
    /// Depth of the hidden entry whose contents are being passed over.
    pub pruning: Option<nat>,
}

impl WalkState {
    /// The state before the first event.
    pub open spec fn start(policy: ErrorPolicy) -> WalkState {
        WalkState {
            policy,
            phase: Phase::AwaitingRoot,
            names: Seq::empty(),
            skipped: Seq::empty(),
            pruning: None,
        }
    }

    /// Whether `event` lies inside the hidden entry that is being passed
    /// over: it is deeper than that entry.
    pub open spec fn passes_over(self, event: WalkEvent) -> bool {
        self.pruning matches Some(depth) && event.depth() > depth
    }

    /// The state after `event`.
    pub open spec fn advance(self, event: WalkEvent) -> WalkState {
        match self.phase {
            Phase::Failed(_) => self,
            Phase::AwaitingRoot => match event {
                WalkEvent::Entry(entry) if entry.opens_walk() => WalkState {
                    phase: Phase::Walking,
                    ..self
                },
                _ => WalkState { phase: Phase::Failed(ErrorView::InvalidRoot), ..self },
            },
            Phase::Walking => if self.passes_over(event) {
                self
            } else {
                match event {
                    WalkEvent::Entry(entry) => if entry.hidden() {
                        WalkState { pruning: Some(entry.depth as nat), ..self }
                    } else {
                        WalkState { pruning: None, names: self.names.push(entry.name@), ..self }
                    },
                    WalkEvent::Failure { path, .. } => match self.policy {
                        ErrorPolicy::Abort => WalkState {
                            phase: Phase::Failed(ErrorView::Traversal { path: path@ }),
                            pruning: None,
                            ..self
                        },
                        ErrorPolicy::Skip => WalkState {
                            pruning: None,
                            skipped: self.skipped.push(path@),
                            ..self
                        },
                    },
                }
            },
        }
    }

    /// What the walker is to do after `event`: stop when the projection has
    /// failed, stay out of a hidden directory that was just met, go on
    /// otherwise.
    pub open spec fn reaction(self, event: WalkEvent) -> WalkAction {
        if self.advance(event).phase is Failed {
            WalkAction::Stop
        } else if self.phase is Walking && !self.passes_over(event) && (event matches WalkEvent::Entry(
            entry,
        ) && entry.hidden() && entry.kind == EntryKind::Directory) {
            WalkAction::SkipSubtree
        } else {
            WalkAction::Continue
        }
    }

    /// The state after all of `events`, taken one after the other.
    pub open spec fn run(self, events: Seq<WalkEvent>) -> WalkState
        decreases events.len(),
    {
        if events.len() == 0 {
            self
        } else {
            self.run(events.drop_last()).advance(events.last())
        }
    }

    /// What the projection returns if the walk ends here.
    pub open spec fn outcome(self) -> Result<ProjectionView, ErrorView> {
        match self.phase {
            Phase::AwaitingRoot => Err(ErrorView::InvalidRoot),
            Phase::Failed(error) => Err(error),
            Phase::Walking => Ok(
                ProjectionView { tree: flat_tree(self.names), skipped: self.skipped },
            ),
        }
    }
}

/// The state after all of `events`, from the start.
pub open spec fn walk(policy: ErrorPolicy, events: Seq<WalkEvent>) -> WalkState {
    WalkState::start(policy).run(events)
}

/// What the walker is to do next.
#[derive(Clone, Copy, Debug, PartialEq, Eq, Structural)]
pub enum WalkAction {
    /// Go on with the next entry.
    Continue,
    /// Do not descend into the directory just reported.
    SkipSubtree,
    /// End the walk: the projection has failed.
    Stop,
}

/// A projection in progress.
pub struct Projector {
    policy: ErrorPolicy,
    started: bool,
    failure: Option<ProjectionError>,
    names: Vec<String>,
    skipped: Vec<String>,
    pruning: Option<usize>,
}

impl View for Projector {
    type V = WalkState;

    closed spec fn view(&self) -> WalkState {
        WalkState {
            policy: self.policy,
            phase: match self.failure {
                Some(error) => Phase::Failed(error@),
                None => if self.started {
                    Phase::Walking
                } else {
                    Phase::AwaitingRoot
                },
            },
            names: texts(self.names@),
            skipped: texts(self.skipped@),
            pruning: match self.pruning {
                Some(depth) => Some(depth as nat),
                None => None,
            },
        }
    }
}

impl Projector {
    /// A projector that has seen no event.
    pub fn new(policy: ErrorPolicy) -> (projector: Projector)
        ensures
            projector@ == WalkState::start(policy),
    {
        let projector = Projector {
            policy,
            started: false,
            failure: None,
            names: Vec::new(),
            skipped: Vec::new(),
            pruning: None,
        };
        assert(projector@ =~= WalkState::start(policy));
        projector
    }

    /// Takes the next event of the walk and says what the walker is to do.
    pub fn step(&mut self, event: &WalkEvent) -> (action: WalkAction)
        ensures
            final(self)@ == old(self)@.advance(*event),
            action == old(self)@.reaction(*event),
    {
        if self.failure.is_some() {
            return WalkAction::Stop;
        }
        if !self.started {
            let opens = match event {
                WalkEvent::Entry(entry) => entry.kind == EntryKind::Directory && entry.depth == 0,
                WalkEvent::Failure { .. } => false,
            };
            if opens {
                self.started = true;
                return WalkAction::Continue;
            }
            self.failure = Some(ProjectionError::InvalidRoot);
            return WalkAction::Stop;
        }
        let depth = match event {
            WalkEvent::Entry(entry) => entry.depth,
            WalkEvent::Failure { depth, .. } => *depth,
        };
        if let Some(hidden_depth) = self.pruning {
            if depth > hidden_depth {
                return WalkAction::Continue;
            }
        }
        match event {
            WalkEvent::Entry(entry) => {
                if entry.is_hidden() {
                    self.pruning = Some(entry.depth);
                    if entry.kind == EntryKind::Directory {
                        WalkAction::SkipSubtree
                    } else {
                        WalkAction::Continue
                    }
                } else {
                    self.pruning = None;
                    self.names.push(entry.name.clone());
                    assert(self@.names =~= old(self)@.names.push(entry.name@));
                    WalkAction::Continue
                }
            },
            WalkEvent::Failure { path, .. } => {
                match self.policy {
                    ErrorPolicy::Abort => {
                        self.pruning = None;
                        self.failure = Some(ProjectionError::Traversal { path: path.clone() });
                        WalkAction::Stop
                    },
                    ErrorPolicy::Skip => {
                        self.pruning = None;
                        self.skipped.push(path.clone());
                        assert(self@.skipped =~= old(self)@.skipped.push(path@));
                        WalkAction::Continue
                    },
                }
            },
        }
    }

    /// Ends the walk and hands out the result.
    pub fn finish(self) -> (result: Result<Projection, ProjectionError>)
        ensures
            outcome_view(result) == self@.outcome(),
    {
        match self.failure {
            Some(error) => Err(error),
            None => if self.started {
                Ok(Projection { tree: flat(self.names), skipped: self.skipped })
            } else {
                Err(ProjectionError::InvalidRoot)
            },
        }
    }
}

/// Builds the tree with an unnamed root and one leaf per name, in order.
fn flat(names: Vec<String>) -> (tree: FileEntry)
    ensures
        tree@ == flat_tree(texts(names@)),
{
    let mut children: Vec<FileEntry> = Vec::new();
    for name in it: names
        invariant
            children@.len() == it.index(),
            forall|j: int|
                0 <= j < it.index() ==> (#[trigger] children@[j])@ == TreeView::leaf(it.seq()[j]@),
    {
        children.push(FileEntry::new(name));
    }
    let tree = FileEntry { name: String::new(), icon: String::new(), children };
    assert(tree@.children =~= flat_tree(texts(names@)).children);
    tree
}

/// Projects a whole walk: the events in the order in which the walker gave
/// them.
///
/// The result is what a projector yields that is fed the events one by one,
/// and it is what the closed form says: `InvalidRoot` where the walk does
/// not begin with a directory at depth 0; under `Abort`, `Traversal` with the
/// path of the first failure that lies inside no hidden entry; otherwise the
/// flat tree of the entries below the root that are neither hidden nor
/// inside a hidden entry, in the order of the walk, and the paths of the
/// failures that were skipped.
pub fn project(events: &Vec<WalkEvent>, policy: ErrorPolicy) -> (result: Result<
    Projection,
    ProjectionError,
>)
    ensures
        outcome_view(result) == projected(policy, events@),
        outcome_view(result) == walk(policy, events@).outcome(),
{
    let mut projector = Projector::new(policy);
    let mut i: usize = 0;
    assert(events@.take(0) =~= Seq::<WalkEvent>::empty());
    while i < events.len()
        invariant
            i <= events.len(),
            projector@ == walk(policy, events@.take(i as int)),
        decreases events.len() - i,
    {
        projector.step(&events[i]);
        proof {
            assert(events@.take(i + 1).drop_last() =~= events@.take(i as int));
        }
        i += 1;
    }
    proof {
        assert(events@.take(i as int) =~= events@);
        walk_yields_the_closed_form(policy, events@);
    }
    projector.finish()
}

} // verus!

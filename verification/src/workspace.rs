//! The workspace: which file and which directory are open, the text being
//! edited, and the tree projected from the open directory.
//!
//! The workspace reads no disk. Whoever opens a path walks it and hands the
//! events of that walk in with the path. An entry that cannot be read fails
//! the walk as a whole: the workspace keeps no partial tree.

use vstd::prelude::*;
use crate::closed_form::projected;
use crate::entry::{FileEntry, TreeView};
use crate::projector::{project, ErrorPolicy, ErrorView, ProjectionError};
use crate::walk::WalkEvent;

verus! {

/// The state of the workspace.
#[derive(Debug, PartialEq, Eq)]
pub struct Workspace {
    /// Path of the file that is open for editing.
    pub current_file: Option<String>,
    /// Path of the directory whose tree is shown.
    pub current_dir: Option<String>,
    /// The text being edited.
    pub input_text: String,
    /// The tree of the directory that was projected last.
    pub entry: FileEntry,
}

/// The mathematical value of a [`Workspace`].
#[verifier::ext_equal]
pub struct WorkspaceView {
    pub current_file: Option<Seq<char>>,
    pub current_dir: Option<Seq<char>>,
    pub input_text: Seq<char>,
    pub entry: TreeView,
}

/// The text of a path that may be absent.
pub open spec fn path_view(path: Option<String>) -> Option<Seq<char>> {
    match path {
        Some(text) => Some(text@),
        None => None,
    }
}

/// The failure that a result carries, if any.
pub open spec fn failure_view(result: Result<(), ProjectionError>) -> Option<ErrorView> {
    match result {
        Ok(_) => None,
        Err(error) => Some(error@),
    }
}

/// The tree that a walk yields where every unreadable entry is fatal, or the
/// reason why it yields none.
pub open spec fn strict_tree(events: Seq<WalkEvent>) -> Result<TreeView, ErrorView> {
    match projected(ErrorPolicy::Abort, events) {
        Ok(projection) => Ok(projection.tree),
        Err(error) => Err(error),
    }
}

/// Why opening `path` with the walk `events` is refused, if it is.
pub open spec fn refusal(path: Option<Seq<char>>, events: Seq<WalkEvent>) -> Option<ErrorView> {
    match (path, strict_tree(events)) {
        (Some(_), Err(error)) => Some(error),
        _ => None,
    }
}

impl WorkspaceView {
    /// The workspace after `path` was opened as the current file.
    pub open spec fn with_file(
        self,
        path: Option<Seq<char>>,
        events: Seq<WalkEvent>,
    ) -> WorkspaceView {
        WorkspaceView {
            current_file: path,
            entry: match (path, strict_tree(events)) {
                (Some(_), Ok(tree)) => tree,
                _ => self.entry,
            },
            ..self
        }
    }

    /// The workspace after `path` was opened as the current directory.
    pub open spec fn with_dir(
        self,
        path: Option<Seq<char>>,
        events: Seq<WalkEvent>,
    ) -> WorkspaceView {
        match (path, strict_tree(events)) {
            (None, _) => WorkspaceView { current_dir: None, ..self },
            (Some(_), Ok(tree)) => WorkspaceView { current_dir: path, entry: tree, ..self },
            (Some(_), Err(_)) => self,
        }
    }

    /// Whether two states show the same: the same paths, the same text and
    /// trees that are alike.
    pub open spec fn same(self, other: WorkspaceView) -> bool {
        &&& self.current_file == other.current_file
        &&& self.current_dir == other.current_dir
        &&& self.input_text == other.input_text
        &&& self.entry.alike(other.entry)
    }

    /// The text of the navigation bar: the open directory, or nothing.
    pub open spec fn navigation_label(self) -> Seq<char> {
        match self.current_dir {
            Some(path) => path,
            None => Seq::empty(),
        }
    }
}

impl View for Workspace {
    type V = WorkspaceView;

    open spec fn view(&self) -> WorkspaceView {
        WorkspaceView {
            current_file: path_view(self.current_file),
            current_dir: path_view(self.current_dir),
            input_text: self.input_text@,
            entry: self.entry@,
        }
    }
}

impl Default for Workspace {
    /// Nothing open, no text, the empty tree.
    fn default() -> (workspace: Workspace)
        ensures
            workspace@ == (WorkspaceView {
                current_file: None,
                current_dir: None,
                input_text: Seq::empty(),
                entry: TreeView::leaf(Seq::empty()),
            }),
    {
        Workspace {
            current_file: None,
            current_dir: None,
            input_text: String::new(),
            entry: FileEntry::default(),
        }
    }
}

impl Clone for Workspace {
    fn clone(&self) -> (copy: Workspace)
        ensures
            copy@ == self@,
    {
        Workspace {
            current_file: copy_path(&self.current_file),
            current_dir: copy_path(&self.current_dir),
            input_text: self.input_text.clone(),
            entry: self.entry.clone(),
        }
    }
}

/// A copy of a path that may be absent.
fn copy_path(path: &Option<String>) -> (copy: Option<String>)
    ensures
        copy == *path,
{
    match path {
        Some(text) => Some(text.clone()),
        None => None,
    }
}

/// Whether two paths that may be absent are the same text.
pub(crate) fn same_path(first: &Option<String>, second: &Option<String>) -> (same: bool)
    ensures
        same == (path_view(*first) == path_view(*second)),
{
    match first {
        Some(a) => match second {
            Some(b) => *a == *b,
            None => false,
        },
        None => second.is_none(),
    }
}

impl Workspace {
    /// Opens `path` as the current file. `events` is the walk that started at
    /// `path`; it is not looked at where `path` is absent.
    ///
    /// Where a path is given and the walk yields a tree, that tree becomes
    /// the workspace's tree. Where the walk fails, the tree stays as it was
    /// and the failure is returned. The current file is set in every case.
    pub fn set_file(&mut self, path: Option<String>, events: &Vec<WalkEvent>) -> (result: Result<
        (),
        ProjectionError,
    >)
        ensures
            final(self)@ == old(self)@.with_file(path_view(path), events@),
            failure_view(result) == refusal(path_view(path), events@),
    {
        let mut result: Result<(), ProjectionError> = Ok(());
        if path.is_some() {
            match project(events, ErrorPolicy::Abort) {
                Ok(projection) => {
                    self.entry = projection.tree;
                },
                Err(error) => {
                    result = Err(error);
                },
            }
        }
        self.current_file = path;
        result
    }

    /// Opens `path` as the current directory. `events` is the walk that
    /// started at `path`; it is not looked at where `path` is absent.
    ///
    /// Where a path is given, the tree is projected anew before the current
    /// directory is set. Where the walk fails, the failure is returned and
    /// the workspace stays as it was.
    pub fn set_dir(&mut self, path: Option<String>, events: &Vec<WalkEvent>) -> (result: Result<
        (),
        ProjectionError,
    >)
        ensures
            final(self)@ == old(self)@.with_dir(path_view(path), events@),
            failure_view(result) == refusal(path_view(path), events@),
    {
        if path.is_some() {
            match project(events, ErrorPolicy::Abort) {
                Ok(projection) => {
                    self.entry = projection.tree;
                },
                Err(error) => {
                    return Err(error);
                },
            }
        }
        self.current_dir = path;
        Ok(())
    }

    /// Whether this state and `other` show the same, so that nothing has to
    /// be drawn anew.
    pub fn same(&self, other: &Workspace) -> (same: bool)
        ensures
            same == self@.same(other@),
    {
        same_path(&self.current_file, &other.current_file) && same_path(
            &self.current_dir,
            &other.current_dir,
        ) && self.input_text == other.input_text && self.entry.same(&other.entry)
    }

    /// The text of the navigation bar: the path of the open directory, or
    /// the empty text where none is open.
    pub fn navigation_label(&self) -> (text: String)
        ensures
            text@ == self@.navigation_label(),
    {
        match &self.current_dir {
            Some(path) => path.clone(),
            None => String::new(),
        }
    }
}

/// Opening the same directory with the same walk a second time changes
/// nothing more.
pub proof fn opening_a_directory_again_changes_nothing(
    workspace: WorkspaceView,
    path: Option<Seq<char>>,
    events: Seq<WalkEvent>,
)
    ensures
        workspace.with_dir(path, events).with_dir(path, events) == workspace.with_dir(path, events),
{
}

/// Opening the same file with the same walk a second time changes nothing
/// more.
pub proof fn opening_a_file_again_changes_nothing(
    workspace: WorkspaceView,
    path: Option<Seq<char>>,
    events: Seq<WalkEvent>,
)
    ensures
        workspace.with_file(path, events).with_file(path, events) == workspace.with_file(
            path,
            events,
        ),
{
}

/// Opening a directory sets path and tree together or neither: where the
/// walk yields a tree, the workspace has that path and that tree afterwards;
/// where it fails, the workspace is what it was.
pub proof fn directory_and_tree_change_together(
    workspace: WorkspaceView,
    path: Seq<char>,
    events: Seq<WalkEvent>,
)
    ensures
        ({
            let next = workspace.with_dir(Some(path), events);
            match strict_tree(events) {
                Ok(tree) => next.current_dir == Some(path) && next.entry == tree,
                Err(_) => next == workspace,
            }
        }),
{
}

/// The workspace after directories were opened one after the other, each
/// request being a path with the walk handed in for it.
pub open spec fn after_directories(
    workspace: WorkspaceView,
    requests: Seq<(Option<Seq<char>>, Seq<WalkEvent>)>,
) -> WorkspaceView
    decreases requests.len(),
{
    if requests.len() == 0 {
        workspace
    } else {
        after_directories(workspace, requests.drop_last()).with_dir(
            requests.last().0,
            requests.last().1,
        )
    }
}

/// In a workspace that had no directory open and has since been changed by
/// opening directories only, a directory that is open has its own tree: the
/// tree is the one that the walk handed in with that path yields.
pub proof fn open_directory_shows_its_own_tree(
    workspace: WorkspaceView,
    requests: Seq<(Option<Seq<char>>, Seq<WalkEvent>)>,
)
    requires
        workspace.current_dir is None,
    ensures
        after_directories(workspace, requests).current_dir matches Some(path) ==> exists|i: int|
            0 <= i < requests.len() && (#[trigger] requests[i]).0 == Some(path) && strict_tree(
                requests[i].1,
            ) == Ok::<TreeView, ErrorView>(after_directories(workspace, requests).entry),
    decreases requests.len(),
{
    if requests.len() > 0 {
        let earlier = requests.drop_last();
        let last = requests.last();
        open_directory_shows_its_own_tree(workspace, earlier);
        let before = after_directories(workspace, earlier);
        let after = after_directories(workspace, requests);
        if after.current_dir is Some {
            let path = after.current_dir->0;
            if last.0 is Some && strict_tree(last.1) is Ok {
                assert(requests[requests.len() - 1] == last);
            } else {
                assert(after == before);
                let i = choose|i: int|
                    0 <= i < earlier.len() && (#[trigger] earlier[i]).0 == Some(path)
                        && strict_tree(earlier[i].1) == Ok::<TreeView, ErrorView>(before.entry);
                assert(requests[i] == earlier[i]);
            }
        }
    }
}

} // verus!

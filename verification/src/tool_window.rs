//! The project tool window, as far as it decides: what it shows for a
//! workspace, and when it builds its panel anew. Drawing the panel is the
//! shell's.

use vstd::prelude::*;
use crate::workspace::{same_path, Workspace, WorkspaceView};

verus! {

/// What the tool window shows.
#[derive(Clone, Copy, Debug, PartialEq, Eq, Structural)]
pub enum Panel {
    /// Nothing: the window has not been shown yet.
    Blank,
    /// A label in place of a tree: no directory is open.
    Placeholder,
    /// The tree of the open directory.
    ProjectTree,
}

/// What the window did with a change of the workspace.
#[derive(Clone, Copy, Debug, PartialEq, Eq, Structural)]
pub enum UpdateAction {
    /// The panel stays; the change is passed on to it.
    Forward,
    /// The panel was built anew; the shell lays the window out again.
    Rebuilt,
}

/// The panel that belongs to a workspace: the tree where a directory is
/// open, the placeholder where none is.
pub open spec fn panel_for(workspace: WorkspaceView) -> Panel {
    if workspace.current_dir is Some {
        Panel::ProjectTree
    } else {
        Panel::Placeholder
    }
}

/// The panel after a change of the workspace from `before` to `after`, for a
/// window that showed `shown`: the panel of `after` where the open directory
/// is another, `shown` otherwise.
pub open spec fn panel_after_update(
    shown: Panel,
    before: WorkspaceView,
    after: WorkspaceView,
) -> Panel {
    if before.current_dir != after.current_dir {
        panel_for(after)
    } else {
        shown
    }
}

/// The state of the project tool window.
#[derive(Clone, Copy, Debug, PartialEq, Eq, Structural)]
pub struct ProjectToolWindow {
    /// What is shown.
    pub panel: Panel,
}

impl ProjectToolWindow {
    /// A window that shows nothing yet.
    pub fn new() -> (window: ProjectToolWindow)
        ensures
            window.panel == Panel::Blank,
    {
        ProjectToolWindow { panel: Panel::Blank }
    }

    /// Builds the panel anew for `workspace`.
    pub fn rebuild_inner(&mut self, workspace: &Workspace)
        ensures
            final(self).panel == panel_for(workspace@),
    {
        if workspace.current_dir.is_some() {
            self.panel = Panel::ProjectTree;
        } else {
            self.panel = Panel::Placeholder;
        }
    }

    /// Takes a notice of the window's life. When the window has just been
    /// added (`added`), the panel is built for `workspace`; any other notice
    /// leaves it. The result says whether the panel was built.
    pub fn lifecycle(&mut self, added: bool, workspace: &Workspace) -> (built: bool)
        ensures
            built == added,
            final(self).panel == if added {
                panel_for(workspace@)
            } else {
                old(self).panel
            },
    {
        if added {
            self.rebuild_inner(workspace);
        }
        added
    }

    /// Takes a change of the workspace from `before` to `after`. Where the
    /// open directory is another, the panel is built anew for `after`;
    /// otherwise it stays.
    pub fn update(&mut self, before: &Workspace, after: &Workspace) -> (action: UpdateAction)
        ensures
            action == if before@.current_dir != after@.current_dir {
                UpdateAction::Rebuilt
            } else {
                UpdateAction::Forward
            },
            final(self).panel == panel_after_update(old(self).panel, before@, after@),
    {
        if !same_path(&before.current_dir, &after.current_dir) {
            self.rebuild_inner(after);
            UpdateAction::Rebuilt
        } else {
            UpdateAction::Forward
        }
    }
}

/// A window that shows the panel of a workspace shows, after any change of
/// that workspace that it was told of, the panel of the workspace as it is
/// then: it never lags behind the open directory.
pub proof fn window_follows_the_workspace(
    shown: Panel,
    before: WorkspaceView,
    after: WorkspaceView,
)
    requires
        shown == panel_for(before),
    ensures
        panel_after_update(shown, before, after) == panel_for(after),
{
}

} // verus!

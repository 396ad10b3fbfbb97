//! What a directory walk reports, as plain values: one event per entry that
//! the walker reached or failed to reach, in the order of a depth-first walk
//! that names a directory before its contents.

use vstd::prelude::*;

verus! {

/// What kind of filesystem object an entry is.
#[derive(Clone, Copy, Debug, PartialEq, Eq, Structural)]
pub enum EntryKind {
    /// A regular file.
    File,
    /// A directory, or a link that the walker follows into one.
    Directory,
    /// Anything else: a link that is not followed, a socket, a device.
    Other,
}

/// One entry that the walker reached.
#[derive(Debug, PartialEq, Eq)]
pub struct WalkEntry {
    /// Distance from the root of the walk, which itself has depth 0.
    pub depth: usize,
    /// Base name of the entry.
    pub name: String,
    /// Kind of the entry.
    pub kind: EntryKind,
}

/// One step of a walk.
#[derive(Debug, PartialEq, Eq)]
pub enum WalkEvent {
    /// The walker reached an entry.
    Entry(WalkEntry),
    /// The walker could not read an entry.
    Failure {
        /// Depth at which the walker failed.
        depth: usize,
        /// Path of the entry that could not be read; empty where the walker
        /// names none.
        path: String,
    },
}

impl Clone for WalkEntry {
    fn clone(&self) -> (copy: WalkEntry)
        ensures
            copy == *self,
    {
        WalkEntry { depth: self.depth, name: self.name.clone(), kind: self.kind }
    }
}

impl Clone for WalkEvent {
    fn clone(&self) -> (copy: WalkEvent)
        ensures
            copy == *self,
    {
        match self {
            WalkEvent::Entry(entry) => WalkEvent::Entry(entry.clone()),
            WalkEvent::Failure { depth, path } => WalkEvent::Failure {
                depth: *depth,
                path: path.clone(),
            },
        }
    }
}

impl WalkEntry {
    /// The hiding rule: an entry is hidden when it is not a regular file and
    /// its name begins with a dot. A regular file is never hidden.
    pub open spec fn hidden(&self) -> bool {
        &&& self.kind != EntryKind::File
        &&& self.name@.len() > 0
        &&& self.name@[0] == '.'
    }

    /// Whether the walk starts at this entry: a directory at depth 0.
    pub open spec fn opens_walk(&self) -> bool {
        self.kind == EntryKind::Directory && self.depth == 0
    }

    /// Decides [`WalkEntry::hidden`].
    pub fn is_hidden(&self) -> (hidden: bool)
        ensures
            hidden == self.hidden(),
    {
        match self.kind {
            EntryKind::File => false,
            _ => {
                let name = self.name.as_str();
                !name.is_empty() && name.get_char(0) == '.'
            },
        }
    }
}

impl WalkEvent {
    /// Depth at which the event took place.
    pub open spec fn depth(&self) -> nat {
        match self {
            WalkEvent::Entry(entry) => entry.depth as nat,
            WalkEvent::Failure { depth, .. } => *depth as nat,
        }
    }
}

} // verus!

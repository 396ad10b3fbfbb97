//! The core of a small code editor: the tree of the project directory and
//! the workspace that holds it.
//!
//! A directory is shown as a [`entry::FileEntry`] tree. The tree is projected
//! from the events of a directory walk ([`walk`]) by the projector
//! ([`projector`]), which leaves out hidden entries and what lies inside
//! them; [`closed_form`] says in closed form what the projector yields, and
//! [`theorems`] holds what is true of every projection. The
//! [`workspace::Workspace`] keeps the open file, the open directory and the
//! tree; [`tool_window`] decides what the project tool window shows.
//!
//! Nothing here reads the disk or draws: the walk and the widgets belong to
//! the program around this library.

pub mod closed_form;
pub mod entry;
pub mod projector;
pub mod theorems;
pub mod tool_window;
pub mod walk;
pub mod workspace;

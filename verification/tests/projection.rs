use project_tree::entry::FileEntry;
use project_tree::projector::{
    project, ErrorPolicy, Projection, ProjectionError, Projector, WalkAction,
};
use project_tree::walk::{EntryKind, WalkEntry, WalkEvent};

fn dir(depth: usize, name: &str) -> WalkEvent {
    WalkEvent::Entry(WalkEntry { depth, name: name.to_string(), kind: EntryKind::Directory })
}

fn file(depth: usize, name: &str) -> WalkEvent {
    WalkEvent::Entry(WalkEntry { depth, name: name.to_string(), kind: EntryKind::File })
}

fn other(depth: usize, name: &str) -> WalkEvent {
    WalkEvent::Entry(WalkEntry { depth, name: name.to_string(), kind: EntryKind::Other })
}

fn failure(depth: usize, path: &str) -> WalkEvent {
    WalkEvent::Failure { depth, path: path.to_string() }
}

fn flat(names: &[&str]) -> FileEntry {
    let mut root = FileEntry::new(String::new());
    for name in names {
        root = root.add_child(FileEntry::new(name.to_string()));
    }
    root
}

fn complete(names: &[&str]) -> Result<Projection, ProjectionError> {
    Ok(Projection { tree: flat(names), skipped: vec![] })
}

fn child_names(projection: &Projection) -> Vec<String> {
    let mut names = Vec::new();
    for index in 0..projection.tree.children_count() {
        names.push(projection.tree.get_child(index).name.clone());
    }
    names
}

fn sorted(mut names: Vec<String>) -> Vec<String> {
    names.sort();
    names
}

#[test]
fn project_with_hidden_directory_and_source_directory() {
    let events = vec![
        dir(0, "proj"),
        file(1, "a.txt"),
        dir(1, ".git"),
        dir(1, "src"),
        file(2, "main.rs"),
    ];
    assert_eq!(project(&events, ErrorPolicy::Abort), complete(&["a.txt", "src", "main.rs"]));
    assert_eq!(project(&events, ErrorPolicy::Skip), complete(&["a.txt", "src", "main.rs"]));
}

#[test]
fn project_passes_over_contents_that_the_walker_did_not_skip() {
    let events = vec![
        dir(0, "proj"),
        file(1, "a.txt"),
        dir(1, ".git"),
        file(2, "config"),
        dir(2, "objects"),
        file(3, "pack"),
        dir(1, "src"),
        file(2, "main.rs"),
    ];
    assert_eq!(project(&events, ErrorPolicy::Abort), complete(&["a.txt", "src", "main.rs"]));
}

#[test]
fn tree_is_flat_whatever_the_depth() {
    let events = vec![
        dir(0, "proj"),
        dir(1, "a"),
        dir(2, "b"),
        dir(3, "c"),
        file(4, "deep.txt"),
        file(1, "top.txt"),
    ];
    let projection = project(&events, ErrorPolicy::Abort).unwrap();
    assert_eq!(projection.tree.name, "");
    assert_eq!(projection.tree.icon, "");
    assert_eq!(child_names(&projection), vec!["a", "b", "c", "deep.txt", "top.txt"]);
    for index in 0..projection.tree.children_count() {
        assert_eq!(projection.tree.get_child(index).children_count(), 0);
        assert_eq!(projection.tree.get_child(index).icon, "");
    }
}

#[test]
fn nonexistent_root_is_a_total_failure() {
    let events = vec![failure(0, "/no/such/dir")];
    assert_eq!(project(&events, ErrorPolicy::Abort), Err(ProjectionError::InvalidRoot));
    assert_eq!(project(&events, ErrorPolicy::Skip), Err(ProjectionError::InvalidRoot));
}

#[test]
fn empty_walk_is_an_invalid_root() {
    assert_eq!(project(&vec![], ErrorPolicy::Abort), Err(ProjectionError::InvalidRoot));
    assert_eq!(project(&vec![], ErrorPolicy::Skip), Err(ProjectionError::InvalidRoot));
    assert_eq!(Projector::new(ErrorPolicy::Abort).finish(), Err(ProjectionError::InvalidRoot));
}

#[test]
fn root_that_is_a_file_is_an_invalid_root() {
    let events = vec![file(0, "a.txt")];
    assert_eq!(project(&events, ErrorPolicy::Abort), Err(ProjectionError::InvalidRoot));
    let events = vec![other(0, "link"), file(1, "x")];
    assert_eq!(project(&events, ErrorPolicy::Skip), Err(ProjectionError::InvalidRoot));
}

#[test]
fn walk_that_starts_below_the_root_is_an_invalid_root() {
    let events = vec![dir(1, "src"), file(2, "main.rs")];
    assert_eq!(project(&events, ErrorPolicy::Abort), Err(ProjectionError::InvalidRoot));
}

#[test]
fn invalid_root_stays_whatever_follows() {
    let events = vec![failure(0, "/gone"), dir(0, "gone"), file(1, "late.txt")];
    assert_eq!(project(&events, ErrorPolicy::Skip), Err(ProjectionError::InvalidRoot));
}

#[test]
fn root_is_not_listed_and_not_hidden() {
    let events = vec![dir(0, ".config"), file(1, "settings"), dir(1, "themes")];
    assert_eq!(project(&events, ErrorPolicy::Abort), complete(&["settings", "themes"]));
    let events = vec![dir(0, ".")];
    assert_eq!(project(&events, ErrorPolicy::Abort), complete(&[]));
}

#[test]
fn directory_of_files_has_one_child_per_file() {
    let events = vec![dir(0, "d"), file(1, "one"), file(1, "two"), file(1, "three")];
    let projection = project(&events, ErrorPolicy::Abort).unwrap();
    assert_eq!(projection.tree.children_count(), 3);
    assert_eq!(child_names(&projection), vec!["one", "two", "three"]);
    assert!(projection.skipped.is_empty());
}

#[test]
fn files_of_the_same_name_are_each_listed() {
    let events = vec![dir(0, "d"), dir(1, "a"), file(2, "mod.rs"), dir(1, "b"), file(2, "mod.rs")];
    assert_eq!(project(&events, ErrorPolicy::Abort), complete(&["a", "mod.rs", "b", "mod.rs"]));
}

#[test]
fn hidden_directory_leaves_no_trace() {
    let with = vec![
        dir(0, "d"),
        file(1, "x"),
        dir(1, ".cache"),
        file(2, "x"),
        file(2, "y"),
        file(1, "z"),
    ];
    let without = vec![dir(0, "d"), file(1, "x"), file(1, "z")];
    assert_eq!(project(&with, ErrorPolicy::Abort), project(&without, ErrorPolicy::Abort));
    assert_eq!(project(&with, ErrorPolicy::Abort), complete(&["x", "z"]));
}

#[test]
fn hidden_directory_at_the_end_leaves_no_trace() {
    let events = vec![dir(0, "d"), file(1, "x"), dir(1, ".cache"), file(2, "y")];
    assert_eq!(project(&events, ErrorPolicy::Abort), complete(&["x"]));
}

#[test]
fn hidden_directory_inside_a_hidden_directory() {
    let events = vec![
        dir(0, "d"),
        dir(1, ".a"),
        dir(2, ".b"),
        file(3, "inner"),
        file(2, "still-inside"),
        file(1, "outside"),
    ];
    assert_eq!(project(&events, ErrorPolicy::Abort), complete(&["outside"]));
}

#[test]
fn hidden_directory_below_a_visible_one() {
    let events = vec![
        dir(0, "d"),
        dir(1, "src"),
        dir(2, ".tmp"),
        file(3, "scratch"),
        file(2, "lib.rs"),
        dir(1, "docs"),
    ];
    assert_eq!(project(&events, ErrorPolicy::Abort), complete(&["src", "lib.rs", "docs"]));
}

#[test]
fn two_hidden_directories_in_a_row() {
    let events = vec![dir(0, "d"), dir(1, ".a"), file(2, "p"), dir(1, ".b"), file(2, "q"), file(1, "r")];
    assert_eq!(project(&events, ErrorPolicy::Abort), complete(&["r"]));
}

#[test]
fn hidden_file_is_listed() {
    let events = vec![dir(0, "d"), file(1, ".gitignore"), file(1, "README")];
    assert_eq!(project(&events, ErrorPolicy::Abort), complete(&[".gitignore", "README"]));
}

#[test]
fn dot_hides_a_directory_and_not_a_file_of_the_same_name() {
    let as_file = vec![dir(0, "d"), file(1, ".env")];
    let as_directory = vec![dir(0, "d"), dir(1, ".env")];
    let as_other = vec![dir(0, "d"), other(1, ".env")];
    assert_eq!(project(&as_file, ErrorPolicy::Abort), complete(&[".env"]));
    assert_eq!(project(&as_directory, ErrorPolicy::Abort), complete(&[]));
    assert_eq!(project(&as_other, ErrorPolicy::Abort), complete(&[]));
}

#[test]
fn hidden_file_inside_a_visible_directory_is_listed() {
    let events = vec![dir(0, "d"), dir(1, "src"), file(2, ".keep")];
    assert_eq!(project(&events, ErrorPolicy::Abort), complete(&["src", ".keep"]));
}

#[test]
fn entries_of_other_kinds_are_listed_by_name() {
    let events = vec![dir(0, "d"), other(1, "socket"), other(1, "link")];
    assert_eq!(project(&events, ErrorPolicy::Abort), complete(&["socket", "link"]));
}

#[test]
fn projecting_twice_gives_the_same_tree() {
    let events = vec![dir(0, "d"), file(1, "b"), dir(1, ".h"), dir(1, "a"), file(2, "b")];
    let first = project(&events, ErrorPolicy::Abort).unwrap();
    let second = project(&events, ErrorPolicy::Abort).unwrap();
    assert_eq!(first, second);
    assert_eq!(sorted(child_names(&first)), sorted(child_names(&second)));
    assert_eq!(sorted(child_names(&first)), vec!["a", "b", "b"]);
}

#[test]
fn order_of_files_changes_the_order_and_not_the_names() {
    let one = vec![dir(0, "d"), file(1, "x"), file(1, "y"), file(1, "x")];
    let two = vec![dir(0, "d"), file(1, "y"), file(1, "x"), file(1, "x")];
    let first = project(&one, ErrorPolicy::Abort).unwrap();
    let second = project(&two, ErrorPolicy::Abort).unwrap();
    assert_ne!(child_names(&first), child_names(&second));
    assert_eq!(sorted(child_names(&first)), sorted(child_names(&second)));
}

#[test]
fn unreadable_entry_aborts_the_projection() {
    let events = vec![dir(0, "d"), file(1, "a"), failure(1, "/d/locked"), file(1, "b")];
    assert_eq!(
        project(&events, ErrorPolicy::Abort),
        Err(ProjectionError::Traversal { path: "/d/locked".to_string() })
    );
}

#[test]
fn first_unreadable_entry_is_the_one_reported() {
    let events = vec![dir(0, "d"), failure(1, "/d/one"), failure(1, "/d/two")];
    assert_eq!(
        project(&events, ErrorPolicy::Abort),
        Err(ProjectionError::Traversal { path: "/d/one".to_string() })
    );
}

#[test]
fn unreadable_root_directory_is_a_traversal_failure() {
    let events = vec![dir(0, "d"), failure(0, "d")];
    assert_eq!(
        project(&events, ErrorPolicy::Abort),
        Err(ProjectionError::Traversal { path: "d".to_string() })
    );
}

#[test]
fn unreadable_entry_is_skipped_and_noted() {
    let events = vec![
        dir(0, "d"),
        file(1, "a"),
        failure(1, "/d/locked"),
        file(1, "b"),
        dir(1, "sub"),
        failure(1, "/d/sub"),
    ];
    assert_eq!(
        project(&events, ErrorPolicy::Skip),
        Ok(Projection {
            tree: flat(&["a", "b", "sub"]),
            skipped: vec!["/d/locked".to_string(), "/d/sub".to_string()],
        })
    );
}

#[test]
fn failure_inside_a_hidden_directory_is_passed_over() {
    let events = vec![dir(0, "d"), dir(1, ".git"), failure(2, "/d/.git/x"), file(1, "a")];
    assert_eq!(project(&events, ErrorPolicy::Abort), complete(&["a"]));
    assert_eq!(project(&events, ErrorPolicy::Skip), complete(&["a"]));
}

#[test]
fn failure_beside_a_hidden_directory_counts() {
    let events = vec![dir(0, "d"), dir(1, ".git"), failure(1, "/d/x"), file(2, "a")];
    assert_eq!(
        project(&events, ErrorPolicy::Abort),
        Err(ProjectionError::Traversal { path: "/d/x".to_string() })
    );
    assert_eq!(
        project(&events, ErrorPolicy::Skip),
        Ok(Projection { tree: flat(&["a"]), skipped: vec!["/d/x".to_string()] })
    );
}

#[test]
fn step_says_what_the_walker_is_to_do() {
    let mut projector = Projector::new(ErrorPolicy::Abort);
    assert_eq!(projector.step(&dir(0, "d")), WalkAction::Continue);
    assert_eq!(projector.step(&file(1, "a")), WalkAction::Continue);
    assert_eq!(projector.step(&dir(1, "src")), WalkAction::Continue);
    assert_eq!(projector.step(&dir(2, ".git")), WalkAction::SkipSubtree);
    assert_eq!(projector.step(&other(2, ".link")), WalkAction::Continue);
    assert_eq!(projector.step(&file(2, ".hidden-file")), WalkAction::Continue);
    assert_eq!(projector.step(&failure(2, "/d/src/x")), WalkAction::Stop);
    assert_eq!(projector.step(&file(1, "late")), WalkAction::Stop);
    assert_eq!(
        projector.finish(),
        Err(ProjectionError::Traversal { path: "/d/src/x".to_string() })
    );
}

#[test]
fn step_goes_on_after_a_failure_that_is_skipped() {
    let mut projector = Projector::new(ErrorPolicy::Skip);
    assert_eq!(projector.step(&dir(0, "d")), WalkAction::Continue);
    assert_eq!(projector.step(&failure(1, "/d/x")), WalkAction::Continue);
    assert_eq!(projector.step(&file(1, "a")), WalkAction::Continue);
    assert_eq!(
        projector.finish(),
        Ok(Projection { tree: flat(&["a"]), skipped: vec!["/d/x".to_string()] })
    );
}

#[test]
fn step_stops_at_an_invalid_root() {
    let mut projector = Projector::new(ErrorPolicy::Skip);
    assert_eq!(projector.step(&failure(0, "/gone")), WalkAction::Stop);
    assert_eq!(projector.step(&dir(0, "gone")), WalkAction::Stop);
    assert_eq!(projector.finish(), Err(ProjectionError::InvalidRoot));
    let mut projector = Projector::new(ErrorPolicy::Abort);
    assert_eq!(projector.step(&file(0, "a.txt")), WalkAction::Stop);
    assert_eq!(projector.finish(), Err(ProjectionError::InvalidRoot));
}

#[test]
fn step_does_not_ask_to_skip_what_is_passed_over() {
    let mut projector = Projector::new(ErrorPolicy::Abort);
    assert_eq!(projector.step(&dir(0, "d")), WalkAction::Continue);
    assert_eq!(projector.step(&dir(1, ".a")), WalkAction::SkipSubtree);
    assert_eq!(projector.step(&dir(2, ".b")), WalkAction::Continue);
    assert_eq!(projector.step(&dir(1, ".c")), WalkAction::SkipSubtree);
    assert_eq!(projector.finish(), Ok(Projection { tree: flat(&[]), skipped: vec![] }));
}

#[test]
fn steps_and_project_agree() {
    let events = vec![
        dir(0, "d"),
        file(1, "a"),
        dir(1, ".h"),
        file(2, "in"),
        failure(1, "/d/bad"),
        dir(1, "s"),
        file(2, "t"),
    ];
    for policy in [ErrorPolicy::Abort, ErrorPolicy::Skip] {
        let mut projector = Projector::new(policy);
        for event in &events {
            projector.step(event);
        }
        assert_eq!(projector.finish(), project(&events, policy));
    }
}

#[test]
fn complete_and_partial_projections_are_told_apart() {
    let clean = vec![dir(0, "d"), file(1, "a")];
    let broken = vec![dir(0, "d"), file(1, "a"), failure(1, "/d/b")];
    assert!(project(&clean, ErrorPolicy::Skip).unwrap().is_complete());
    assert!(project(&clean, ErrorPolicy::Abort).unwrap().is_complete());
    assert!(!project(&broken, ErrorPolicy::Skip).unwrap().is_complete());
    assert!(project(&broken, ErrorPolicy::Abort).is_err());
}

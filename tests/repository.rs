use diff_tui::repository::{changed_files, FileStatus, StatusFlags};

fn flags() -> StatusFlags {
    StatusFlags {
        index_new: false,
        worktree_new: false,
        index_deleted: false,
        worktree_deleted: false,
        index_renamed: false,
        worktree_renamed: false,
        index_modified: false,
        worktree_modified: false,
    }
}

#[test]
fn new_wins_over_other_flags() {
    let f = StatusFlags { worktree_new: true, index_modified: true, ..flags() };
    assert_eq!(FileStatus::from_flags(f), Some(FileStatus::Added));
}

#[test]
fn each_flag_gives_its_status() {
    assert_eq!(FileStatus::from_flags(StatusFlags { index_deleted: true, ..flags() }), Some(FileStatus::Deleted));
    assert_eq!(FileStatus::from_flags(StatusFlags { worktree_renamed: true, ..flags() }), Some(FileStatus::Renamed));
    assert_eq!(FileStatus::from_flags(StatusFlags { worktree_modified: true, ..flags() }), Some(FileStatus::Modified));
    assert_eq!(FileStatus::from_flags(flags()), None);
}

#[test]
fn files_are_listed_sorted_by_path() {
    let m = StatusFlags { worktree_modified: true, ..flags() };
    let entries = vec![
        ("src/z.rs".to_string(), m),
        ("README.md".to_string(), StatusFlags { worktree_new: true, ..flags() }),
        ("ignored".to_string(), flags()),
        ("src/a.rs".to_string(), m),
        ("src".to_string(), m),
    ];
    let files = changed_files(entries);
    let paths: Vec<&str> = files.iter().map(|f| f.path.as_str()).collect();
    assert_eq!(paths, vec!["README.md", "src", "src/a.rs", "src/z.rs"]);
    assert_eq!(files[0].status, FileStatus::Added);
    assert_eq!(files[0].status.symbol(), 'A');
}

#[test]
fn symbols() {
    assert_eq!(FileStatus::Modified.symbol(), 'M');
    assert_eq!(FileStatus::Deleted.symbol(), 'D');
    assert_eq!(FileStatus::Renamed.symbol(), 'R');
    assert_eq!(FileStatus::Untracked.symbol(), '?');
}

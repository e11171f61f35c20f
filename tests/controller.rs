use diff_tui::config::Config;
use diff_tui::controller::{App, Key, Screen};
use diff_tui::repository::{ChangedFile, FileStatus};

fn files(paths: &[&str]) -> Vec<ChangedFile> {
    paths
        .iter()
        .map(|p| ChangedFile { path: p.to_string(), status: FileStatus::Modified })
        .collect()
}

fn three() -> App {
    App::new(files(&["src/app.rs", "src/config.rs", "README.md"]), Config::default())
}

fn numbered(n: usize) -> Vec<u8> {
    let mut s = String::new();
    for i in 0..n {
        s.push_str(&format!("line {}\n", i));
    }
    s.into_bytes()
}

#[test]
fn new_session_selects_first() {
    let app = three();
    assert_eq!(app.filtered_indices, vec![0, 1, 2]);
    assert_eq!(app.selected, Some(0));
    assert_eq!(app.screen, Screen::FileList);
    assert!(app.running);
}

#[test]
fn new_session_without_files_selects_nothing() {
    let app = App::new(Vec::new(), Config::default());
    assert_eq!(app.selected, None);
    assert_eq!(app.open_target(), None);
}

#[test]
fn next_at_last_entry_stays() {
    let mut app = three();
    app.select_next();
    app.select_next();
    assert_eq!(app.selected, Some(2));
    app.select_next();
    assert_eq!(app.selected, Some(2));
}

#[test]
fn previous_at_first_entry_stays() {
    let mut app = three();
    app.select_previous();
    assert_eq!(app.selected, Some(0));
    app.handle_key(Key::Down);
    app.handle_key(Key::Char('k'));
    assert_eq!(app.selected, Some(0));
}

#[test]
fn cleared_query_restores_all_files() {
    let mut app = three();
    app.handle_key(Key::Char('/'));
    assert!(app.search_mode);
    for c in "abc".chars() {
        app.handle_key(Key::Char(c));
    }
    assert_eq!(app.search_query, "abc");
    assert!(app.filtered_indices.is_empty());
    assert_eq!(app.selected, None);
    app.handle_key(Key::Esc);
    assert!(!app.search_mode);
    assert_eq!(app.search_query, "");
    assert_eq!(app.filtered_indices, vec![0, 1, 2]);
    assert_eq!(app.selected, Some(0));
}

#[test]
fn backspace_refilters() {
    let mut app = three();
    app.handle_key(Key::Char('/'));
    app.handle_key(Key::Char('c'));
    app.handle_key(Key::Char('f'));
    app.handle_key(Key::Char('g'));
    assert_eq!(app.filtered_indices, vec![1]);
    app.handle_key(Key::Char('x'));
    assert!(app.filtered_indices.is_empty());
    app.handle_key(Key::Backspace);
    assert_eq!(app.search_query, "cfg");
    assert_eq!(app.filtered_indices, vec![1]);
    assert_eq!(app.selected, Some(0));
}

#[test]
fn confirm_search_opens_selected_file() {
    let mut app = three();
    app.handle_key(Key::Char('/'));
    for c in "cfg".chars() {
        app.handle_key(Key::Char(c));
    }
    assert_eq!(app.handle_key(Key::Enter), Some(1));
    assert!(!app.search_mode);
}

#[test]
fn confirm_with_no_match_opens_nothing() {
    let mut app = three();
    app.handle_key(Key::Char('/'));
    app.handle_key(Key::Char('z'));
    app.handle_key(Key::Char('z'));
    assert_eq!(app.handle_key(Key::Enter), None);
    assert!(!app.search_mode);
}

#[test]
fn quit_stops_session() {
    let mut app = three();
    assert_eq!(app.handle_key(Key::Char('q')), None);
    assert!(!app.running);
}

#[test]
fn q_while_searching_is_text() {
    let mut app = three();
    app.handle_key(Key::Char('/'));
    app.handle_key(Key::Char('q'));
    assert!(app.running);
    assert_eq!(app.search_query, "q");
}

#[test]
fn open_and_scroll_are_clamped() {
    let mut app = three();
    app.handle_key(Key::Char('j'));
    let target = app.handle_key(Key::Enter);
    assert_eq!(target, Some(1));
    app.open_diff(1, numbered(30));
    assert_eq!(app.screen, Screen::DiffView);
    assert_eq!(app.selected_file.as_deref(), Some("src/config.rs"));
    assert_eq!(app.diff_lines.len(), 30);
    assert_eq!(app.diff_scroll, 0);
    app.handle_key(Key::Up);
    assert_eq!(app.diff_scroll, 0);
    app.handle_key(Key::PageUp);
    assert_eq!(app.diff_scroll, 0);
    app.handle_key(Key::Char('j'));
    assert_eq!(app.diff_scroll, 1);
    app.handle_key(Key::PageDown);
    assert_eq!(app.diff_scroll, 21);
    app.handle_key(Key::Char('d'));
    assert_eq!(app.diff_scroll, 29);
    app.handle_key(Key::Down);
    assert_eq!(app.diff_scroll, 29);
    app.handle_key(Key::Char('u'));
    assert_eq!(app.diff_scroll, 9);
    app.handle_key(Key::Home);
    assert_eq!(app.diff_scroll, 0);
    app.handle_key(Key::Char('G'));
    assert_eq!(app.diff_scroll, 29);
    assert_eq!(app.line_position(), (30, 30));
    assert_eq!(app.visible_range(10), (29, 30));
    app.handle_key(Key::Esc);
    assert_eq!(app.screen, Screen::FileList);
    assert_eq!(app.diff_scroll, 0);
}

#[test]
fn scroll_on_empty_diff_stays_at_zero() {
    let mut app = three();
    app.open_diff(0, Vec::new());
    assert!(app.diff_lines.len() <= 1);
    for k in [Key::Down, Key::PageDown, Key::End, Key::Up, Key::PageUp, Key::Home] {
        app.handle_key(k);
        assert_eq!(app.diff_scroll, 0);
    }
    let n = app.diff_lines.len();
    assert_eq!(app.line_position(), (n, n));
    assert_eq!(app.visible_range(5), (0, n));
}

#[test]
fn visible_range_fits_height() {
    let mut app = three();
    app.open_diff(2, numbered(50));
    app.handle_key(Key::PageDown);
    assert_eq!(app.visible_range(10), (20, 30));
    assert_eq!(app.line_position(), (21, 50));
}

#[test]
fn query_stops_growing_at_its_limit() {
    let mut app = App::new(files(&["b"]), Config::default());
    app.handle_key(Key::Char('/'));
    app.search_query = "a".repeat(diff_tui::fuzzy::MAX_QUERY_CHARS - 1);
    app.handle_key(Key::Char('a'));
    assert_eq!(app.search_query.chars().count(), diff_tui::fuzzy::MAX_QUERY_CHARS);
    assert!(app.filtered_indices.is_empty());
    app.handle_key(Key::Char('z'));
    assert_eq!(app.search_query.chars().count(), diff_tui::fuzzy::MAX_QUERY_CHARS);
    assert!(!app.search_query.ends_with('z'));
    assert!(app.config.diff.tool == "auto");
}

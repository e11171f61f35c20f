use diff_tui::config::DiffConfig;
use diff_tui::diff::{get_diff, DiffAction, DiffRequest, DiffStage, StepOutcome};
use diff_tui::markup::decode_markup;

const FAILURE: &[u8] = b"Failed to get diff";

fn config(tool: &str, args: &[&str]) -> DiffConfig {
    DiffConfig { tool: tool.to_string(), args: args.iter().map(|s| s.to_string()).collect() }
}

fn git_args(action: &DiffAction) -> Vec<String> {
    match action {
        DiffAction::Git(args) => args.clone(),
        _ => panic!("expected a git run"),
    }
}

/// Drives a request where nothing can be located and every command fails.
fn run_failing(tool: &str) -> (Vec<u8>, usize) {
    let mut req = DiffRequest::new("src/a.rs", 80, &config(tool, &[]));
    let mut outcome = StepOutcome::Begin;
    let mut steps = 0;
    loop {
        steps += 1;
        match get_diff(&mut req, outcome) {
            DiffAction::Locate(_) => outcome = StepOutcome::Located(false),
            DiffAction::Git(_) | DiffAction::Pipe { .. } => outcome = StepOutcome::Output(None),
            DiffAction::Done(bytes) => return (bytes, steps),
        }
    }
}

#[test]
fn total_failure_gives_placeholder() {
    for tool in ["auto", "git", "colordiff"] {
        let (bytes, steps) = run_failing(tool);
        assert_eq!(bytes, FAILURE);
        assert!(steps <= 8);
    }
}

#[test]
fn git_tool_runs_colored_diff_then_baseline() {
    let mut req = DiffRequest::new("x.rs", 80, &config("git", &[]));
    let a = get_diff(&mut req, StepOutcome::Begin);
    assert_eq!(git_args(&a), vec!["diff", "--color=always", "x.rs"]);
    let b = get_diff(&mut req, StepOutcome::Output(Some(Vec::new())));
    assert_eq!(git_args(&b), vec!["diff", "--color=always", "--no-index", "/dev/null", "x.rs"]);
    match get_diff(&mut req, StepOutcome::Output(Some(b"new file".to_vec()))) {
        DiffAction::Done(bytes) => assert_eq!(bytes, b"new file"),
        _ => panic!("expected the end"),
    }
    assert_eq!(req.stage, DiffStage::Finished);
}

#[test]
fn auto_pipes_raw_diff_through_delta_with_width() {
    let mut req = DiffRequest::new("x.rs", 118, &config("auto", &["--side-by-side"]));
    match get_diff(&mut req, StepOutcome::Begin) {
        DiffAction::Locate(p) => assert_eq!(p, "delta"),
        _ => panic!("expected a lookup"),
    }
    let raw = get_diff(&mut req, StepOutcome::Located(true));
    assert_eq!(git_args(&raw), vec!["diff", "x.rs"]);
    match get_diff(&mut req, StepOutcome::Output(Some(b"raw".to_vec()))) {
        DiffAction::Pipe { program, args, input } => {
            assert_eq!(program, "delta");
            assert_eq!(args, vec!["--width", "118"]);
            assert_eq!(input, b"raw");
        }
        _ => panic!("expected a pipe"),
    }
    match get_diff(&mut req, StepOutcome::Output(Some(b"pretty".to_vec()))) {
        DiffAction::Done(bytes) => assert_eq!(bytes, b"pretty"),
        _ => panic!("expected the end"),
    }
}

#[test]
fn delta_width_flag_is_not_doubled() {
    let args = ["--width", "100", "--line-numbers", "--width=5", "-s", "--width"];
    let mut req = DiffRequest::new("x.rs", 7, &config("delta", &args));
    get_diff(&mut req, StepOutcome::Begin);
    get_diff(&mut req, StepOutcome::Located(true));
    get_diff(&mut req, StepOutcome::Output(None));
    match get_diff(&mut req, StepOutcome::Output(Some(b"raw".to_vec()))) {
        DiffAction::Pipe { args, .. } => assert_eq!(args, vec!["--width", "7", "--line-numbers", "-s"]),
        _ => panic!("expected a pipe"),
    }
}

#[test]
fn other_tool_gets_configured_args_only() {
    let mut req = DiffRequest::new("x.rs", 90, &config("colordiff", &["--width", "-u"]));
    match get_diff(&mut req, StepOutcome::Begin) {
        DiffAction::Locate(p) => assert_eq!(p, "colordiff"),
        _ => panic!("expected a lookup"),
    }
    get_diff(&mut req, StepOutcome::Located(true));
    match get_diff(&mut req, StepOutcome::Output(Some(b"raw".to_vec()))) {
        DiffAction::Pipe { program, args, .. } => {
            assert_eq!(program, "colordiff");
            assert_eq!(args, vec!["--width", "-u"]);
        }
        _ => panic!("expected a pipe"),
    }
    let back = get_diff(&mut req, StepOutcome::Output(Some(Vec::new())));
    assert_eq!(git_args(&back), vec!["diff", "--color=always", "x.rs"]);
}

#[test]
fn missing_tool_falls_back_to_git() {
    let mut req = DiffRequest::new("x.rs", 80, &config("auto", &[]));
    get_diff(&mut req, StepOutcome::Begin);
    let a = get_diff(&mut req, StepOutcome::Located(false));
    assert_eq!(git_args(&a), vec!["diff", "--color=always", "x.rs"]);
}

#[test]
fn empty_raw_diff_retries_against_empty_file() {
    let mut req = DiffRequest::new("new.rs", 80, &config("auto", &[]));
    get_diff(&mut req, StepOutcome::Begin);
    get_diff(&mut req, StepOutcome::Located(true));
    let a = get_diff(&mut req, StepOutcome::Output(Some(Vec::new())));
    assert_eq!(git_args(&a), vec!["diff", "--no-index", "/dev/null", "new.rs"]);
}

#[test]
fn placeholder_decodes_to_one_plain_line() {
    let (bytes, _) = run_failing("nonexistent-tool");
    let lines = decode_markup(&bytes);
    assert_eq!(lines.len(), 1);
    assert_eq!(lines[0].spans.len(), 1);
    assert_eq!(lines[0].spans[0].text, "Failed to get diff");
    assert!(lines[0].spans[0].style.map_or(true, |s| s == ratatui::style::Style::default()));
}

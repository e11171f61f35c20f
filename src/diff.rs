use vstd::prelude::*;
use crate::config::DiffConfig;
use vstd::string::StrSliceExecFns;

verus! {

/// What is shown when no diff could be had: "Failed to get diff".
pub open spec fn failure_text() -> Seq<u8> {
    seq![70u8, 97, 105, 108, 101, 100, 32, 116, 111, 32, 103, 101, 116, 32, 100, 105, 102, 102]
}

fn failure_bytes() -> (r: Vec<u8>)
    ensures
        r@ == failure_text(),
{
    let r: Vec<u8> = vec![70u8, 97, 105, 108, 101, 100, 32, 116, 111, 32, 103, 101, 116, 32, 100, 105, 102, 102];
    assert(r@ =~= failure_text());
    r
}

/// The decimal digit `d`.
pub open spec fn digit(d: nat) -> char {
    if d == 0 { '0' } else if d == 1 { '1' } else if d == 2 { '2' } else if d == 3 { '3' }
    else if d == 4 { '4' } else if d == 5 { '5' } else if d == 6 { '6' } else if d == 7 { '7' }
    else if d == 8 { '8' } else { '9' }
}

/// `n` written in decimal.
pub open spec fn decimal(n: nat) -> Seq<char>
    decreases n,
{
    if n < 10 {
        seq![digit(n)]
    } else {
        decimal(n / 10).push(digit(n % 10))
    }
}

fn digit_char(d: u16) -> (c: char)
    requires
        d < 10,
    ensures
        c == digit(d as nat),
{
    match d {
        0 => '0',
        1 => '1',
        2 => '2',
        3 => '3',
        4 => '4',
        5 => '5',
        6 => '6',
        7 => '7',
        8 => '8',
        _ => '9',
    }
}

fn push_decimal(s: &mut String, n: u16)
    ensures
        final(s)@ == old(s)@ + decimal(n as nat),
    decreases n,
{
    if n >= 10 {
        push_decimal(s, n / 10);
    }
    s.push(digit_char(n % 10));
    assert(final(s)@ =~= old(s)@ + decimal(n as nat));
}

/// The texts of a list of strings.
pub open spec fn views(v: Seq<String>) -> Seq<Seq<char>> {
    v.map_values(|s: String| s@)
}

proof fn lemma_views_push(v: Seq<String>, s: String)
    ensures
        views(v.push(s)) == views(v).push(s@),
{
    assert(views(v.push(s)) =~= views(v).push(s@));
}

/// The arguments of a `git diff` of `path`: coloured or raw, against the
/// index or against an empty file.
pub open spec fn git_args(colored: bool, baseline: bool, path: Seq<char>) -> Seq<Seq<char>> {
    let head = if colored { seq!["diff"@, "--color=always"@] } else { seq!["diff"@] };
    let base = if baseline { seq!["--no-index"@, "/dev/null"@] } else { seq![] };
    head + base + seq![path]
}

/// The program run for the configured tool; `"auto"` stands for delta.
pub open spec fn program_name(tool: Seq<char>) -> Seq<char> {
    if tool == "auto"@ {
        "delta"@
    } else {
        tool
    }
}

/// `a` sets the width in one argument: `--width=N`.
pub open spec fn is_width_assignment(a: Seq<char>) -> bool {
    a.len() >= 8 && a.take(8) == "--width="@
}

/// `args` without any width setting of their own: a `--width` flag goes
/// together with the value after it, and `--width=N` goes whole.
pub open spec fn without_width(args: Seq<Seq<char>>) -> Seq<Seq<char>>
    decreases args.len(),
{
    if args.len() == 0 {
        seq![]
    } else if args[0] == "--width"@ {
        if args.len() >= 2 {
            without_width(args.skip(2))
        } else {
            seq![]
        }
    } else if is_width_assignment(args[0]) {
        without_width(args.skip(1))
    } else {
        seq![args[0]] + without_width(args.skip(1))
    }
}

/// The arguments the tool runs with: delta gets the width, and no width
/// setting from the extra arguments besides; for `"auto"` there are no extra
/// arguments.
pub open spec fn tool_args(tool: Seq<char>, extra: Seq<Seq<char>>, width: u16) -> Seq<Seq<char>> {
    let e = if tool == "auto"@ { seq![] } else { extra };
    if program_name(tool) == "delta"@ {
        seq!["--width"@, decimal(width as nat)] + without_width(e)
    } else {
        e
    }
}

/// Where the acquisition of a diff stands.
#[derive(Debug, Clone, Copy, PartialEq, Eq, Structural)]
pub enum DiffStage {
    /// Nothing has been tried.
    Start,
    /// The tool is being looked up.
    Locating,
    /// The raw diff against the index is being taken.
    RawDiff,
    /// The raw diff against an empty file is being taken.
    RawBaseline,
    /// The raw diff is being piped through the tool.
    Piping,
    /// The coloured diff against the index is being taken.
    Colored,
    /// The coloured diff against an empty file is being taken.
    ColoredBaseline,
    /// The bytes to show have been handed out.
    Finished,
}

/// Steps left before the acquisition ends at most.
pub open spec fn rank(s: DiffStage) -> nat {
    match s {
        DiffStage::Start => 7,
        DiffStage::Locating => 6,
        DiffStage::RawDiff => 5,
        DiffStage::RawBaseline => 4,
        DiffStage::Piping => 3,
        DiffStage::Colored => 2,
        DiffStage::ColoredBaseline => 1,
        DiffStage::Finished => 0,
    }
}

/// What came of the last action.
pub enum StepOutcome {
    /// Nothing was asked yet.
    Begin,
    /// Whether the program looked up was found.
    Located(bool),
    /// What a command wrote to its standard output; `None` when it could not
    /// be run.
    Output(Option<Vec<u8>>),
}

/// What to do next.
pub enum DiffAction {
    /// Look the program up on the search path; answer with `Located`.
    Locate(String),
    /// Run `git` with these arguments; answer with `Output`.
    Git(Vec<String>),
    /// Run `program` with `args`, writing `input` to its standard input;
    /// answer with `Output`.
    Pipe { program: String, args: Vec<String>, input: Vec<u8> },
    /// Show these bytes; the acquisition is over.
    Done(Vec<u8>),
}

/// The outcome is output that can be shown.
pub open spec fn usable(o: StepOutcome) -> bool {
    o matches StepOutcome::Output(Some(b)) && b@.len() > 0
}

/// The bytes of an output outcome.
pub open spec fn output_bytes(o: StepOutcome) -> Seq<u8> {
    match o {
        StepOutcome::Output(Some(b)) => b@,
        _ => seq![],
    }
}

/// The stage after `s`, given the outcome of its action. The tool `"git"`
/// goes to the coloured diff at once; a tool that is missing, or gives
/// nothing, gives way to it; the coloured diff falls back on an empty
/// baseline, then on the failure text.
pub open spec fn next_stage(s: DiffStage, git_only: bool, o: StepOutcome) -> DiffStage {
    match s {
        DiffStage::Start => if git_only { DiffStage::Colored } else { DiffStage::Locating },
        DiffStage::Locating => if o matches StepOutcome::Located(true) {
            DiffStage::RawDiff
        } else {
            DiffStage::Colored
        },
        DiffStage::RawDiff => if usable(o) { DiffStage::Piping } else { DiffStage::RawBaseline },
        DiffStage::RawBaseline => if usable(o) { DiffStage::Piping } else { DiffStage::Colored },
        DiffStage::Piping => if usable(o) { DiffStage::Finished } else { DiffStage::Colored },
        DiffStage::Colored => if usable(o) { DiffStage::Finished } else { DiffStage::ColoredBaseline },
        _ => DiffStage::Finished,
    }
}

/// A request for the diff of one file, and how far it has come.
pub struct DiffRequest {
    pub file_path: String,
    /// Columns the output may use.
    pub width: u16,
    pub tool: String,
    pub args: Vec<String>,
    pub stage: DiffStage,
}

/// `a` is the action that goes with entering stage `s` of request `r`,
/// after outcome `o`.
pub open spec fn action_for(r: DiffRequest, o: StepOutcome, s: DiffStage, a: DiffAction) -> bool {
    match s {
        DiffStage::Locating => a matches DiffAction::Locate(p) && p@ == program_name(r.tool@),
        DiffStage::RawDiff => a matches DiffAction::Git(args) && views(args@) == git_args(false, false, r.file_path@),
        DiffStage::RawBaseline => a matches DiffAction::Git(args) && views(args@) == git_args(false, true, r.file_path@),
        DiffStage::Colored => a matches DiffAction::Git(args) && views(args@) == git_args(true, false, r.file_path@),
        DiffStage::ColoredBaseline => a matches DiffAction::Git(args) && views(args@) == git_args(true, true, r.file_path@),
        DiffStage::Piping => a matches DiffAction::Pipe { program, args, input } && program@ == program_name(r.tool@)
            && views(args@) == tool_args(r.tool@, views(r.args@), r.width) && input@ == output_bytes(o),
        DiffStage::Finished => a matches DiffAction::Done(b) && b@ == (if usable(o) { output_bytes(o) } else { failure_text() }),
        DiffStage::Start => false,
    }
}

fn text(s: &str) -> (r: String)
    ensures
        r@ == s@,
{
    s.to_string()
}

fn git_arg_list(colored: bool, baseline: bool, path: &String) -> (r: Vec<String>)
    ensures
        views(r@) == git_args(colored, baseline, path@),
{
    let mut r: Vec<String> = Vec::new();
    r.push(text("diff"));
    if colored {
        r.push(text("--color=always"));
    }
    if baseline {
        r.push(text("--no-index"));
        r.push(text("/dev/null"));
    }
    r.push(path.clone());
    assert(views(r@) =~= git_args(colored, baseline, path@));
    r
}

impl DiffRequest {
    /// A request for the diff of `file_path`, `width` columns wide, with the
    /// configured tool.
    pub fn new(file_path: &str, width: u16, config: &DiffConfig) -> (r: DiffRequest)
        ensures
            r.file_path@ == file_path@,
            r.width == width,
            r.tool@ == config.tool@,
            views(r.args@) == views(config.args@),
            r.stage == DiffStage::Start,
    {
        let mut args: Vec<String> = Vec::new();
        let mut i: usize = 0;
        while i < config.args.len()
            invariant
                i <= config.args@.len(),
                views(args@) == views(config.args@.take(i as int)),
            decreases config.args@.len() - i,
        {
            let ghost before = args@;
            args.push(config.args[i].clone());
            assert(config.args@.take(i + 1) =~= config.args@.take(i as int).push(config.args@[i as int]));
            proof {
                lemma_views_push(before, config.args@[i as int]);
                lemma_views_push(config.args@.take(i as int), config.args@[i as int]);
            }
            i += 1;
        }
        assert(config.args@.take(i as int) =~= config.args@);
        DiffRequest { file_path: text(file_path), width, tool: config.tool.clone(), args, stage: DiffStage::Start }
    }

    fn program(&self) -> (r: String)
        ensures
            r@ == program_name(self.tool@),
    {
        if self.tool == text("auto") {
            text("delta")
        } else {
            self.tool.clone()
        }
    }

    fn tool_arg_list(&self) -> (r: Vec<String>)
        ensures
            views(r@) == tool_args(self.tool@, views(self.args@), self.width),
    {
        let auto = self.tool == text("auto");
        let mut extra: Vec<String> = Vec::new();
        if !auto {
            let mut i: usize = 0;
            while i < self.args.len()
                invariant
                    i <= self.args@.len(),
                    views(extra@) == views(self.args@.take(i as int)),
                decreases self.args@.len() - i,
            {
                let ghost before = extra@;
                extra.push(self.args[i].clone());
                assert(self.args@.take(i + 1) =~= self.args@.take(i as int).push(self.args@[i as int]));
                proof {
                    lemma_views_push(before, self.args@[i as int]);
                    lemma_views_push(self.args@.take(i as int), self.args@[i as int]);
                }
                i += 1;
            }
            assert(self.args@.take(i as int) =~= self.args@);
        }
        let ghost e = if self.tool@ == "auto"@ { seq![] } else { views(self.args@) };
        assert(views(extra@) =~= e);
        if self.program() != text("delta") {
            return extra;
        }
        let mut r: Vec<String> = Vec::new();
        r.push(text("--width"));
        let mut w = String::new();
        push_decimal(&mut w, self.width);
        r.push(w);
        let ghost head = views(r@);
        let flag = text("--width");
        let ghost ev = views(extra@);
        let mut i: usize = 0;
        assert(ev.skip(0) =~= ev);
        while i < extra.len()
            invariant
                i <= extra@.len(),
                ev == views(extra@),
                flag@ == "--width"@,
                views(r@) + without_width(ev.skip(i as int)) == head + without_width(ev),
            decreases extra@.len() - i,
        {
            let ghost rest = ev.skip(i as int);
            assert(rest[0] == extra@[i as int]@);
            if extra[i] == flag {
                if i + 1 < extra.len() {
                    assert(rest.skip(2) =~= ev.skip(i + 2));
                    i += 2;
                } else {
                    assert(ev.skip(extra@.len() as int) =~= seq![]);
                    i = extra.len();
                }
            } else if has_width_value(&extra[i]) {
                assert(rest.skip(1) =~= ev.skip(i + 1));
                i += 1;
            } else {
                let ghost before = r@;
                r.push(extra[i].clone());
                proof {
                    lemma_views_push(before, extra@[i as int]);
                }
                assert(rest.skip(1) =~= ev.skip(i + 1));
                assert(views(r@) + without_width(ev.skip(i + 1)) =~= views(before) + without_width(rest));
                i += 1;
            }
        }
        assert(ev.skip(i as int) =~= seq![]);
        assert(views(r@) =~= views(r@) + without_width(ev.skip(i as int)));
        assert(views(r@) =~= tool_args(self.tool@, views(self.args@), self.width));
        r
    }
}

/// Whether `s` sets the width in one argument, `--width=N`.
fn has_width_value(s: &String) -> (r: bool)
    ensures
        r == is_width_assignment(s@),
{
    let prefix = "--width=";
    proof {
        reveal_strlit("--width=");
    }
    let t = s.as_str();
    if t.unicode_len() < 8 {
        return false;
    }
    let mut k: usize = 0;
    while k < 8
        invariant
            k <= 8,
            s@.len() >= 8,
            t@ == s@,
            prefix@ == "--width="@,
            prefix@.len() == 8,
            forall|j: int| 0 <= j < k ==> s@[j] == prefix@[j],
        decreases 8 - k,
    {
        if t.get_char(k) != prefix.get_char(k) {
            assert(s@.take(8)[k as int] != "--width="@[k as int]);
            return false;
        }
        k += 1;
    }
    assert(s@.take(8) =~= "--width="@);
    true
}

/// Advances the acquisition of a diff by one step: reads the outcome of the
/// last action and names the next one. The chain is the tool (delta for
/// `"auto"`) fed with the raw diff, then git's coloured diff, then the failure
/// text; each step is tried only when the one before gave nothing usable, and
/// what is finally shown is never empty.
pub fn get_diff(req: &mut DiffRequest, outcome: StepOutcome) -> (action: DiffAction)
    ensures
        final(req).stage == next_stage(old(req).stage, old(req).tool@ == "git"@, outcome),
        action_for(*old(req), outcome, final(req).stage, action),
        final(req).file_path == old(req).file_path,
        final(req).width == old(req).width,
        final(req).tool == old(req).tool,
        final(req).args == old(req).args,
        old(req).stage != DiffStage::Finished ==> rank(final(req).stage) < rank(old(req).stage),
        action matches DiffAction::Done(b) ==> b@.len() > 0,
{
    let git_only = req.tool == text("git");
    let ok = match &outcome {
        StepOutcome::Output(Some(b)) => b.len() > 0,
        _ => false,
    };
    let located = match &outcome {
        StepOutcome::Located(found) => *found,
        _ => false,
    };
    let next = match req.stage {
        DiffStage::Start => if git_only { DiffStage::Colored } else { DiffStage::Locating },
        DiffStage::Locating => if located { DiffStage::RawDiff } else { DiffStage::Colored },
        DiffStage::RawDiff => if ok { DiffStage::Piping } else { DiffStage::RawBaseline },
        DiffStage::RawBaseline => if ok { DiffStage::Piping } else { DiffStage::Colored },
        DiffStage::Piping => if ok { DiffStage::Finished } else { DiffStage::Colored },
        DiffStage::Colored => if ok { DiffStage::Finished } else { DiffStage::ColoredBaseline },
        _ => DiffStage::Finished,
    };
    req.stage = next;
    let bytes = match outcome {
        StepOutcome::Output(Some(b)) => b,
        _ => Vec::new(),
    };
    match next {
        DiffStage::Locating => DiffAction::Locate(req.program()),
        DiffStage::RawDiff => DiffAction::Git(git_arg_list(false, false, &req.file_path)),
        DiffStage::RawBaseline => DiffAction::Git(git_arg_list(false, true, &req.file_path)),
        DiffStage::Colored => DiffAction::Git(git_arg_list(true, false, &req.file_path)),
        DiffStage::ColoredBaseline => DiffAction::Git(git_arg_list(true, true, &req.file_path)),
        DiffStage::Piping => DiffAction::Pipe { program: req.program(), args: req.tool_arg_list(), input: bytes },
        _ => DiffAction::Done(if ok { bytes } else { failure_bytes() }),
    }
}

} // verus!

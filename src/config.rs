use vstd::prelude::*;

verus! {

/// Which diff tool to run, and with which extra arguments.
pub struct DiffConfig {
    /// `"auto"`, `"git"`, or the name of any executable.
    pub tool: String,
    /// Extra arguments handed to the tool.
    pub args: Vec<String>,
}

/// User settings.
pub struct Config {
    pub diff: DiffConfig,
}

impl Default for DiffConfig {
    fn default() -> (r: Self)
        ensures
            r.tool@ == "auto"@,
            r.args@.len() == 0,
    {
        DiffConfig { tool: "auto".to_string(), args: Vec::new() }
    }
}

impl Default for Config {
    fn default() -> (r: Self)
        ensures
            r.diff.tool@ == "auto"@,
            r.diff.args@.len() == 0,
    {
        Config { diff: DiffConfig::default() }
    }
}

} // verus!

use vstd::prelude::*;

verus! {

/// The parsed command line: one subcommand.
pub struct Cli {
    pub command: Commands,
}

/// The subcommands of the tool.
pub enum Commands {
    /// Show version information.
    Version,
    /// Greet a person `count` times.
    Greet { name: String, count: u8 },
    /// Scan `path` for dependency folders; remove them when `force` is set.
    Clean { path: String, force: bool },
    /// Combine the code files under `path` into one Markdown document.
    CombineCode { path: String, output: Option<String>, wanted: Vec<String>, exclude: Vec<String> },
}

} // verus!

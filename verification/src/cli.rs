//! The command line: global options and the subcommand.
use vstd::prelude::*;

verus! {

/// The options of one run.
#[derive(Debug, PartialEq)]
pub struct Cli {
    pub command: Commands,
    pub model: String,
    pub attach: Vec<String>,
    pub yes: bool,
    pub no_web_search: bool,
    pub no_datetime: bool,
    pub search_engine: String,
    pub max_search_results: u32,
    pub no_native_tools: bool,
    pub shell_timeout: u64,
}

/// What the run does.
#[derive(Debug, PartialEq)]
pub enum Commands {
    /// Send one prompt and print the answer.
    Prompt { prompt: Vec<String>, no_stream: bool, system: Option<String> },
    /// A conversation on standard input and output.
    Chat,
    /// A conversation in a terminal user interface.
    Tui,
}

} // verus!

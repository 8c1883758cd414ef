//! The administrative command-line surface: the commands the binary
//! accepts and the decision of whether a process invocation is a command
//! run at all.  Argument parsing and the commands' network side effects
//! live outside the library.

use vstd::prelude::*;

verus! {

/// An administrative command.
#[derive(Debug)]
pub enum Commands {
    /// Health-check a running service.
    Health { url: String },
    /// Validate configuration without starting the service.
    Config { validate: bool },
    /// Show service status and configuration.
    Status { url: String },
    /// Check connectivity to the grammar upstream with a sample text.
    TestGrammar { url: Option<String>, text: String },
}

/// The parsed command line.
#[derive(Debug)]
pub struct Cli {
    pub command: Commands,
}

/// Whether a process invocation runs an administrative command rather
/// than the server: any argument beyond the program name selects the
/// command path.
pub fn should_run_cli(arg_len: usize) -> (r: bool)
    ensures
        r == (arg_len > 1),
{
    arg_len > 1
}

} // verus!

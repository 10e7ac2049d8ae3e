//! The command line: the commands and options the program takes.

use vstd::prelude::*;

verus! {

/// The command line of the program.
pub struct Cli {
    pub command: Command,
    /// Verbose output (each page rendered, each data fetch, ...).
    pub verbose: bool,
    /// Only errors are printed.
    pub quiet: bool,
}

/// The commands.
pub enum Command {
    /// Build the site into `dist/`.
    Build { project: String },
    /// Initialize a new project.
    Init { name: String },
    /// Start the development server with live reload.
    Dev { project: String, port: u16, host: String },
    /// Audit the built site for SEO, performance and accessibility.
    Audit { project: String, format: String, output: Option<String>, no_build: bool },
}

} // verus!

//! The command line, as plain values.

use vstd::prelude::*;

verus! {

/// What to do with a folder's repository.
#[derive(Debug)]
pub enum SetupSyncArgs {
    /// Make the folder a clone of `branch` of `repo`.
    Setup { repo: String, branch: String },
}

/// The command to run.
#[derive(Debug)]
pub enum ActionArgs {
    /// Create a folder or a note.
    Create { folder: Option<String>, note: Option<String> },
    /// Open a note.
    Open { note: String },
    /// List the items of a folder.
    Ls { folder: String },
    /// Remove a folder or a note.
    Rm { folder: Option<String>, note: Option<String> },
    /// Search the notes of a folder for a term.
    Search { content: String, folder: String },
    /// Synchronise a folder, or set up its repository.
    Sync { setup: Option<SetupSyncArgs>, folder: String },
}

/// The whole command line.
#[derive(Debug)]
pub struct Args {
    pub data_dir: Option<String>,
    pub verbose: u8,
    pub offline: bool,
    pub action: ActionArgs,
    pub version: bool,
}

/// The log level that a count of `-v` flags asks for.
pub open spec fn log_level_spec(verbose: u8) -> Seq<char> {
    if verbose == 0 {
        "error"@
    } else if verbose == 1 {
        "info"@
    } else if verbose == 2 {
        "debug"@
    } else {
        "trace"@
    }
}

impl Args {
    /// The log level that the `-v` flags ask for: errors only without any,
    /// then info, debug, and trace from three on.
    pub fn log_level(&self) -> (r: String)
        ensures
            r@ == log_level_spec(self.verbose),
    {
        if self.verbose == 0 {
            String::from_str("error")
        } else if self.verbose == 1 {
            String::from_str("info")
        } else if self.verbose == 2 {
            String::from_str("debug")
        } else {
            String::from_str("trace")
        }
    }
}

} // verus!

//! Decisions of the command-line front end.
//!
//! The front end reads directories and launches processes; what it decides
//! between those steps is computed here, from plain values to plain values.

use vstd::prelude::*;

verus! {

/// What the `fuzz` command was asked to do.
#[allow(non_camel_case_types)]
#[derive(Debug)]
pub enum FuzzCommand {
    /// Run fuzz target
    Run {
        /// Name of the fuzz target
        target: String,
    },
    /// Debug fuzz target with crash file
    Run_Debug {
        /// Name of the fuzz target
        target: String,
        /// Path to the crash file
        crash_file_path: String,
    },
}

/// A fuzzer launch, ready to be carried out in the project at `root`.
#[derive(Debug)]
pub enum FuzzAction {
    RunFuzzer { root: String, target: String },
    RunFuzzerDebug { root: String, target: String, crash_file_path: String },
}

/// What the front end does first for a `fuzz` command.
#[derive(Debug)]
pub enum FuzzStep {
    /// No root was given: search the parent directories for the project file.
    Discover { subcmd: FuzzCommand },
    /// The root is known: launch.
    Launch { action: FuzzAction },
}

/// Why a command could not be carried out.
#[derive(Clone, Copy, Debug, PartialEq, Eq, Structural)]
pub enum CommandError {
    /// No parent directory holds the project file.
    NotInitialized,
}

/// Name of the file that marks a project root.
pub open spec fn project_file_name() -> Seq<char> {
    "gecko.toml"@
}

/// The text shown when no project root is found.
pub open spec fn not_initialized_text() -> Seq<char> {
    "It does not seem that gecko is initialized because the gecko.toml file was not found in any parent directory!"@
}

/// The launch that `subcmd` asks for in the project at `root`.
pub open spec fn launch_of(root: String, subcmd: FuzzCommand) -> FuzzAction {
    match subcmd {
        FuzzCommand::Run { target } => FuzzAction::RunFuzzer { root, target },
        FuzzCommand::Run_Debug { target, crash_file_path } => FuzzAction::RunFuzzerDebug {
            root,
            target,
            crash_file_path,
        },
    }
}

impl CommandError {
    /// The text shown to the user for this error.
    pub fn message(&self) -> (res: String)
        ensures
            res@ == not_initialized_text(),
            res@.len() > 0,
    {
        proof {
            reveal_strlit(
                "It does not seem that gecko is initialized because the gecko.toml file was not found in any parent directory!",
            );
        }
        "It does not seem that gecko is initialized because the gecko.toml file was not found in any parent directory!".to_owned()
    }
}

/// Builds the launch for a known root.
pub fn fuzz_action(root: String, subcmd: FuzzCommand) -> (res: FuzzAction)
    ensures
        res == launch_of(root, subcmd),
{
    match subcmd {
        FuzzCommand::Run { target } => FuzzAction::RunFuzzer { root, target },
        FuzzCommand::Run_Debug { target, crash_file_path } => FuzzAction::RunFuzzerDebug {
            root,
            target,
            crash_file_path,
        },
    }
}

/// First decision of the `fuzz` command: with a root it launches at once,
/// without one it asks for the search.
pub fn begin_fuzz(root: Option<String>, subcmd: FuzzCommand) -> (res: FuzzStep)
    ensures
        res == match root {
            Some(r) => FuzzStep::Launch { action: launch_of(r, subcmd) },
            None => FuzzStep::Discover { subcmd },
        },
{
    match root {
        Some(r) => FuzzStep::Launch { action: fuzz_action(r, subcmd) },
        None => FuzzStep::Discover { subcmd },
    }
}

/// Second decision of the `fuzz` command, taken when the search has ended:
/// it launches in the directory found, and fails when none was found.
pub fn after_discovery(found: Option<String>, subcmd: FuzzCommand) -> (res: Result<
    FuzzAction,
    CommandError,
>)
    ensures
        res == match found {
            Some(r) => Ok::<FuzzAction, CommandError>(launch_of(r, subcmd)),
            None => Err::<FuzzAction, CommandError>(CommandError::NotInitialized),
        },
{
    match found {
        Some(r) => Ok(fuzz_action(r, subcmd)),
        None => Err(CommandError::NotInitialized),
    }
}

/// Whether one of the file names is the project file's.
pub open spec fn has_project_file(entries: Seq<String>) -> bool {
    exists|i: int| 0 <= i < entries.len() && (#[trigger] entries[i])@ == project_file_name()
}

/// What the search does after listing one directory.
#[derive(Clone, Copy, Debug, PartialEq, Eq, Structural)]
pub enum DiscoverStep {
    /// The directory listed is the project root.
    Found,
    /// Go on with the parent directory.
    Ascend,
    /// The top was reached without a project file.
    NotFound,
}

/// The step that follows a listing.
pub open spec fn spec_discover_step(entries: Seq<String>, has_parent: bool) -> DiscoverStep {
    if has_project_file(entries) {
        DiscoverStep::Found
    } else if has_parent {
        DiscoverStep::Ascend
    } else {
        DiscoverStep::NotFound
    }
}

/// One step of the climb towards the project root. `entries` are the file
/// names of the directory just listed, `has_parent` tells whether a directory
/// lies above it.
pub fn discover_step(entries: &Vec<String>, has_parent: bool) -> (res: DiscoverStep)
    ensures
        res == spec_discover_step(entries@, has_parent),
{
    let marker: String = "gecko.toml".to_owned();
    let mut i: usize = 0;
    while i < entries.len()
        invariant
            i <= entries.len(),
            marker@ == project_file_name(),
            forall|j: int| 0 <= j < i ==> (#[trigger] entries@[j])@ != project_file_name(),
        decreases entries.len() - i,
    {
        if entries[i] == marker {
            return DiscoverStep::Found;
        }
        i += 1;
    }
    if has_parent {
        DiscoverStep::Ascend
    } else {
        DiscoverStep::NotFound
    }
}

} // verus!

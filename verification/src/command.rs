//! The commands of the tool and the flags that ask for them.

use crate::text::str_equals;
use vstd::prelude::*;

verus! {

/// What the tool is asked to do.
#[derive(Clone, Debug, PartialEq, Eq)]
pub enum FondaCommand {
    /// Install the package list that is already there.
    RunRequirements,
    /// Write the package list of the default manifest.
    WriteRequirements,
    /// Write the package list of the manifest at the given path.
    WriteRequirementsCustomFile(String),
    /// Create the environment of the default manifest and install into it.
    CreateAndRun,
    /// Create the environment of the manifest at the given path and
    /// install into it.
    CustomFile(String),
}

/// A command as plain values.
pub enum CommandView {
    RunRequirements,
    WriteRequirements,
    WriteRequirementsCustomFile(Seq<char>),
    CreateAndRun,
    CustomFile(Seq<char>),
}

impl View for FondaCommand {
    type V = CommandView;

    open spec fn view(&self) -> CommandView {
        match self {
            FondaCommand::RunRequirements => CommandView::RunRequirements,
            FondaCommand::WriteRequirements => CommandView::WriteRequirements,
            FondaCommand::WriteRequirementsCustomFile(path) => {
                CommandView::WriteRequirementsCustomFile(path@)
            },
            FondaCommand::CreateAndRun => CommandView::CreateAndRun,
            FondaCommand::CustomFile(path) => CommandView::CustomFile(path@),
        }
    }
}

/// The command that a flag asks for: `-r` installs, `-w` writes, `-f`
/// provisions from a file whose path is still to be filled in, and
/// anything else provisions from the default manifest.
pub open spec fn command_for(flag: Seq<char>) -> CommandView {
    if flag == "-r"@ {
        CommandView::RunRequirements
    } else if flag == "-w"@ {
        CommandView::WriteRequirements
    } else if flag == "-f"@ {
        CommandView::CustomFile(Seq::<char>::empty())
    } else {
        CommandView::CreateAndRun
    }
}

impl FondaCommand {
    /// The command that the flag `s` asks for.
    pub fn from(s: &str) -> (command: FondaCommand)
        ensures
            command@ == command_for(s@),
    {
        if str_equals(s, "-r") {
            FondaCommand::RunRequirements
        } else if str_equals(s, "-w") {
            FondaCommand::WriteRequirements
        } else if str_equals(s, "-f") {
            FondaCommand::CustomFile(String::new())
        } else {
            FondaCommand::CreateAndRun
        }
    }
}

} // verus!

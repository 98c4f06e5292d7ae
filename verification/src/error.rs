//! The faults that the gameplay core reports. None of them ends the game:
//! each is handed to the caller, which logs it and goes on.

use vstd::prelude::*;

verus! {

/// What went wrong in one step of the gameplay core.
#[derive(Clone, Copy, Debug, PartialEq, Eq, Hash, Structural)]
pub enum GameplayError {
    /// The player asked to interact and no candidate was in reach.
    NoQualifyingTarget,
    /// The chosen target is bound to no dialogue node.
    TargetWithoutDialogue,
    /// A quest name that was never registered.
    QuestNotFound,
    /// `start_quest` came with a number of parameters other than one.
    InvalidCommandArguments,
    /// A dialogue command other than `start_quest`.
    UnknownCommand,
    /// A dialogue signal or request that does not fit the session's state.
    SessionOrderingFault,
    /// A quest name was registered a second time.
    DuplicateQuest,
}

impl GameplayError {
    /// Whether the fault is one of configuration, to be treated as fatal at
    /// startup, rather than one met while the game runs.
    pub open spec fn is_configuration_fault(self) -> bool {
        self == GameplayError::DuplicateQuest
    }

    /// Tells a startup fault from a fault of the running game.
    pub fn is_fatal_at_startup(&self) -> (fatal: bool)
        ensures
            fatal == self.is_configuration_fault(),
    {
        match self {
            GameplayError::DuplicateQuest => true,
            _ => false,
        }
    }
}

} // verus!

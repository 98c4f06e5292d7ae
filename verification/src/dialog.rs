//! The dialogue session manager: the one conversation that may run at a
//! time, from the choice of a target to the engine's signal that the
//! conversation is over.
//!
//! The dialogue engine itself is outside this crate. The manager is told of
//! the engine's signals and answers with the calls that are to be made into
//! the engine.

use bevy::prelude::Entity;
use vstd::prelude::*;
use vstd::string::*;

use crate::error::GameplayError;
use crate::player::{PlayerState, PlayerStateController};
use crate::quests::QuestEvents;
use crate::ui::dialog_box::{DialogBoxContent, DialogBoxContentView};

verus! {

/// The one command that a dialogue may hold: it starts the quest named by
/// its only parameter.
pub const START_QUEST: &'static str = "start_quest";

/// A command embedded in a dialogue, as the engine reports it.
#[derive(Debug, PartialEq, Eq)]
pub struct DialogueCommand {
    pub name: String,
    pub parameters: Vec<String>,
}

/// What the dialogue engine reports.
#[derive(Debug, PartialEq, Eq)]
pub enum DialogueSignal {
    /// A dialogue has started to run.
    SessionStarted,
    /// A line is to be shown.
    LinePresented { speaker: Option<String>, text: String },
    /// The dialogue reached a command.
    CommandExecuted(DialogueCommand),
    /// The dialogue has run to its end.
    SessionCompleted,
}

/// A call to be made into the dialogue engine.
#[derive(Debug, PartialEq, Eq)]
pub enum EngineCall {
    /// Start a dialogue at the node of this name.
    StartSession(String),
    /// Let the running dialogue go on.
    ContinueSession,
}

/// The running conversation.
#[derive(Clone, Copy, Debug, PartialEq, Eq)]
pub struct DialogueSession {
    /// The entity that the player is talking to.
    pub target: Entity,
}

/// What a signal of the engine led to, beyond the manager's own state.
#[derive(Debug, PartialEq, Eq)]
pub enum DialogueEffect {
    /// Nothing is left to do.
    Nothing,
    /// A quest event is to be handed to the quest ledger.
    Quest(QuestEvents),
    /// The session has ended; what the engine held for it can be released.
    SessionEnded(DialogueSession),
}

/// What a command comes to: `start_quest` with one parameter asks for that
/// quest to be started, `start_quest` with any other number of parameters is
/// refused, and so is every other command.
pub open spec fn dispatches_to(
    command: DialogueCommand,
    outcome: Result<QuestEvents, GameplayError>,
) -> bool {
    if command.name@ != START_QUEST@ {
        outcome == Err::<QuestEvents, GameplayError>(GameplayError::UnknownCommand)
    } else if command.parameters.len() != 1 {
        outcome == Err::<QuestEvents, GameplayError>(GameplayError::InvalidCommandArguments)
    } else {
        outcome matches Ok(QuestEvents::StartQuest(quest)) && quest@ == command.parameters[0]@
    }
}

/// Reads a dialogue command.
pub fn dispatch_command(command: &DialogueCommand) -> (outcome: Result<QuestEvents, GameplayError>)
    ensures
        dispatches_to(*command, outcome),
{
    if command.name != String::from_str(START_QUEST) {
        Err(GameplayError::UnknownCommand)
    } else if command.parameters.len() != 1 {
        Err(GameplayError::InvalidCommandArguments)
    } else {
        Ok(QuestEvents::StartQuest(command.parameters[0].clone()))
    }
}

/// The dialogue session manager. It holds the running conversation, if there
/// is one, the player's mode, which it alone sets, and the line on display.
#[derive(Debug)]
pub struct DialogueSessionManager {
    session: Option<DialogueSession>,
    player: PlayerStateController,
    display: DialogBoxContent,
}

impl DialogueSessionManager {
    /// The running conversation, if there is one.
    pub closed spec fn session(&self) -> Option<DialogueSession> {
        self.session
    }

    /// The player's mode.
    pub closed spec fn player_state(&self) -> PlayerState {
        self.player@
    }

    /// The line on display.
    pub closed spec fn display(&self) -> DialogBoxContentView {
        self.display@
    }

    /// A conversation is running.
    pub open spec fn is_active(&self) -> bool {
        self.session() is Some
    }

    /// The number of running conversations.
    pub open spec fn active_sessions(&self) -> nat {
        if self.is_active() {
            1
        } else {
            0
        }
    }

    /// The manager is well formed: the player is in a dialogue exactly while
    /// a conversation is running.
    pub closed spec fn wf(&self) -> bool {
        self.player@ == PlayerState::Dialog <==> self.session is Some
    }

    /// `other` is in the same state as this manager.
    pub open spec fn same_state(&self, other: &Self) -> bool {
        &&& other.session() == self.session()
        &&& other.player_state() == self.player_state()
        &&& other.display() == self.display()
    }

    /// There is never more than one running conversation.
    pub proof fn lemma_at_most_one_session(&self)
        ensures
            self.active_sessions() == 0 || self.active_sessions() == 1,
    {
    }

    /// The player is in a dialogue if and only if a conversation is running.
    pub proof fn lemma_dialog_iff_active(&self)
        requires
            self.wf(),
        ensures
            self.player_state() == PlayerState::Dialog <==> self.is_active(),
            self.player_state() == PlayerState::Free <==> !self.is_active(),
    {
    }

    /// The manager at the start of the game: no conversation, the player
    /// free, nothing on display.
    pub fn new() -> (manager: Self)
        ensures
            manager.wf(),
            manager.session() is None,
            manager.player_state() == PlayerState::Free,
            manager.display() == DialogBoxContent::blank(),
    {
        DialogueSessionManager {
            session: None,
            player: PlayerStateController::new(),
            display: DialogBoxContent::default(),
        }
    }

    /// The running conversation, if there is one.
    pub fn current_session(&self) -> (session: Option<DialogueSession>)
        ensures
            session == self.session(),
    {
        self.session
    }

    /// The holder of the player's mode, to be read.
    pub fn player(&self) -> (player: &PlayerStateController)
        ensures
            player@ == self.player_state(),
    {
        &self.player
    }

    /// The line on display.
    pub fn content(&self) -> (content: &DialogBoxContent)
        ensures
            content@ == self.display(),
    {
        &self.display
    }

    /// Opens a conversation with `target` at the dialogue node `node`. Only
    /// one conversation runs at a time: while one is running the request is
    /// refused and nothing changes.
    pub fn open_session(&mut self, target: Entity, node: &String) -> (call: Result<
        EngineCall,
        GameplayError,
    >)
        requires
            old(self).wf(),
        ensures
            final(self).wf(),
            final(self).display() == old(self).display(),
            old(self).is_active() ==> call == Err::<EngineCall, GameplayError>(
                GameplayError::SessionOrderingFault,
            ) && old(self).same_state(final(self)),
            !old(self).is_active() ==> {
                &&& call matches Ok(EngineCall::StartSession(name)) && name@ == node@
                &&& final(self).session() == Some(DialogueSession { target })
                &&& final(self).player_state() == PlayerState::Dialog
            },
    {
        if self.session.is_some() {
            return Err(GameplayError::SessionOrderingFault);
        }
        self.session = Some(DialogueSession { target });
        self.player.set(PlayerState::Dialog);
        Ok(EngineCall::StartSession(node.clone()))
    }

    /// Asks the engine to let the running conversation go on. Without a
    /// running conversation the request is refused.
    pub fn continue_session(&self) -> (call: Result<EngineCall, GameplayError>)
        ensures
            call == if self.is_active() {
                Ok::<EngineCall, GameplayError>(EngineCall::ContinueSession)
            } else {
                Err::<EngineCall, GameplayError>(GameplayError::SessionOrderingFault)
            },
    {
        if self.session.is_some() {
            Ok(EngineCall::ContinueSession)
        } else {
            Err(GameplayError::SessionOrderingFault)
        }
    }
}

impl Default for DialogueSessionManager {
    /// The manager at the start of the game.
    fn default() -> (manager: Self)
        ensures
            manager.wf(),
            manager.session() is None,
            manager.player_state() == PlayerState::Free,
            manager.display() == DialogBoxContent::blank(),
    {
        DialogueSessionManager::new()
    }
}

/// What one signal of the engine does to the manager and leads to.
///
/// Without a running conversation every signal is out of order: it is
/// refused and nothing changes. While a conversation runs, the start signal
/// is taken note of; a line replaces the line on display; a command is read
/// and changes nothing here, whatever it comes to; and the completion signal
/// ends the conversation and frees the player.
pub open spec fn signal_handled(
    before: &DialogueSessionManager,
    signal: DialogueSignal,
    after: &DialogueSessionManager,
    outcome: Result<DialogueEffect, GameplayError>,
) -> bool {
    if !before.is_active() {
        &&& outcome == Err::<DialogueEffect, GameplayError>(GameplayError::SessionOrderingFault)
        &&& before.same_state(after)
    } else {
        match signal {
            DialogueSignal::SessionStarted => {
                &&& outcome matches Ok(DialogueEffect::Nothing)
                &&& before.same_state(after)
            },
            DialogueSignal::LinePresented { speaker, text } => {
                &&& outcome matches Ok(DialogueEffect::Nothing)
                &&& after.session() == before.session()
                &&& after.player_state() == before.player_state()
                &&& after.display() == (DialogBoxContent { character: speaker, line: text })@
            },
            DialogueSignal::CommandExecuted(command) => {
                &&& before.same_state(after)
                &&& match outcome {
                    Ok(DialogueEffect::Quest(event)) => dispatches_to(
                        command,
                        Ok::<QuestEvents, GameplayError>(event),
                    ),
                    Ok(_) => false,
                    Err(fault) => dispatches_to(command, Err::<QuestEvents, GameplayError>(fault)),
                }
            },
            DialogueSignal::SessionCompleted => {
                &&& outcome matches Ok(DialogueEffect::SessionEnded(ended)) && Some(ended)
                    == before.session()
                &&& after.session() is None
                &&& after.player_state() == PlayerState::Free
                &&& after.display() == before.display()
            },
        }
    }
}

/// A running conversation ends by the engine's completion signal and by
/// nothing else: after any other signal it is still running, with the same
/// target, and the player is still in the dialogue.
pub proof fn lemma_only_completion_ends_a_session(
    before: &DialogueSessionManager,
    signal: DialogueSignal,
    after: &DialogueSessionManager,
    outcome: Result<DialogueEffect, GameplayError>,
)
    requires
        signal_handled(before, signal, after, outcome),
        before.is_active(),
        !(signal is SessionCompleted),
    ensures
        after.session() == before.session(),
        after.player_state() == before.player_state(),
{
}

/// Takes one signal of the dialogue engine.
pub fn handle_yarnspinner_events(manager: &mut DialogueSessionManager, signal: DialogueSignal) -> (outcome:
    Result<DialogueEffect, GameplayError>)
    requires
        old(manager).wf(),
    ensures
        final(manager).wf(),
        signal_handled(old(manager), signal, final(manager), outcome),
{
    let session = match manager.session {
        Some(session) => session,
        None => {
            return Err(GameplayError::SessionOrderingFault);
        },
    };
    match signal {
        DialogueSignal::SessionStarted => Ok(DialogueEffect::Nothing),
        DialogueSignal::LinePresented { speaker, text } => {
            manager.display = DialogBoxContent { character: speaker, line: text };
            Ok(DialogueEffect::Nothing)
        },
        DialogueSignal::CommandExecuted(command) => {
            match dispatch_command(&command) {
                Ok(event) => Ok(DialogueEffect::Quest(event)),
                Err(fault) => Err(fault),
            }
        },
        DialogueSignal::SessionCompleted => {
            manager.session = None;
            manager.player.set(PlayerState::Free);
            Ok(DialogueEffect::SessionEnded(session))
        },
    }
}

} // verus!

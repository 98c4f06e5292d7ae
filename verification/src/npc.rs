//! Characters that can be talked to.

use vstd::prelude::*;

use crate::dialog::{DialogueSession, DialogueSessionManager, EngineCall};
use crate::error::GameplayError;
use crate::interactable::InteractEvent;
use crate::player::PlayerState;

verus! {

/// Binds an entity to the dialogue node at which a conversation with it
/// starts.
#[derive(Debug, PartialEq, Eq)]
pub struct Npc(pub String);

/// Takes the player's choice of a target. `npc` is the binding that the
/// target carries, if it carries one.
///
/// A target without a binding is dropped. A target with a binding opens a
/// conversation at the bound node and puts the player into a dialogue; the
/// call to be made into the engine is returned. While a conversation is
/// running no second one is opened.
pub fn handle_npc_interactions(
    manager: &mut DialogueSessionManager,
    event: InteractEvent,
    npc: Option<&Npc>,
) -> (call: Result<EngineCall, GameplayError>)
    requires
        old(manager).wf(),
    ensures
        final(manager).wf(),
        final(manager).display() == old(manager).display(),
        npc is None ==> call == Err::<EngineCall, GameplayError>(
            GameplayError::TargetWithoutDialogue,
        ) && old(manager).same_state(final(manager)),
        npc is Some && old(manager).is_active() ==> call == Err::<EngineCall, GameplayError>(
            GameplayError::SessionOrderingFault,
        ) && old(manager).same_state(final(manager)),
        npc is Some && !old(manager).is_active() ==> {
            &&& call matches Ok(EngineCall::StartSession(node)) && node@ == (npc->0).0@
            &&& final(manager).session() == Some(DialogueSession { target: event.0 })
            &&& final(manager).player_state() == PlayerState::Dialog
        },
{
    match npc {
        Some(bound) => manager.open_session(event.0, &bound.0),
        None => Err(GameplayError::TargetWithoutDialogue),
    }
}

} // verus!

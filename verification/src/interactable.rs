//! The event by which the player's choice of a target is handed on.

use bevy::prelude::Entity;
use vstd::prelude::*;

verus! {

/// `bevy::prelude::Entity`, the engine's handle of an entity. Nothing is
/// claimed of it. The gameplay core never looks inside one: it is carried
/// from the candidates to the event and from the event to the session.
#[verifier::external_type_specification]
#[verifier::external_body]
pub struct ExEntity(Entity);

/// The target that the player chose to interact with. It lives for one tick:
/// it is made by the interaction step and taken by the dialogue step.
#[derive(Clone, Copy, Debug, PartialEq, Eq)]
pub struct InteractEvent(pub Entity);

} // verus!

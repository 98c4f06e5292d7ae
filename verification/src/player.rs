//! The player's mode and the choice of an interaction target.
//!
//! Distances and angles reach this module as ordered keys: the IEEE-754
//! single-precision bit pattern of the measured value. Neither measure is
//! ever negative. For values that are zero or positive the keys are ordered
//! as the values are, and every not-a-number pattern lies above the key of
//! positive infinity, so a comparison of keys decides as the comparison of
//! the values would: a measure that is not a number is below no limit.

use bevy::prelude::Entity;
use vstd::prelude::*;

use crate::error::GameplayError;
use crate::interactable::InteractEvent;

verus! {

/// Key of the squared interaction radius: the radius is two world units, so
/// this is the bit pattern of four.
pub const INTERACT_RADIUS_SQUARED_BITS: u32 = 0x4080_0000;

/// Key of positive infinity, above every angle that can be measured.
pub const UNREACHED_ANGLE_BITS: u32 = 0x7F80_0000;

/// The two modes of the player.
#[derive(Clone, Copy, Debug, PartialEq, Eq, Hash, Structural)]
pub enum PlayerState {
    /// The player moves and may pick a target.
    Free,
    /// The player is held in a conversation.
    Dialog,
}

impl PlayerState {
    /// Movement input is applied only while the player is free.
    pub fn allows_movement(&self) -> (allowed: bool)
        ensures
            allowed == (*self == PlayerState::Free),
    {
        match self {
            PlayerState::Free => true,
            PlayerState::Dialog => false,
        }
    }
}

/// The holder of the player's mode. Everyone may read the mode; it is set
/// only by the dialogue session manager, inside this crate.
#[derive(Debug)]
pub struct PlayerStateController {
    state: PlayerState,
}

impl View for PlayerStateController {
    type V = PlayerState;

    closed spec fn view(&self) -> PlayerState {
        self.state
    }
}

impl PlayerStateController {
    /// The controller at the start of the game: the player is free.
    pub fn new() -> (controller: Self)
        ensures
            controller@ == PlayerState::Free,
    {
        PlayerStateController { state: PlayerState::Free }
    }

    /// The player's mode.
    pub fn get(&self) -> (state: PlayerState)
        ensures
            state == self@,
    {
        self.state
    }

    /// Writes the player's mode.
    pub(crate) fn set(&mut self, state: PlayerState)
        ensures
            final(self)@ == state,
    {
        self.state = state;
    }
}

/// An entity that may be interacted with, as measured from the player.
#[derive(Clone, Copy, Debug, PartialEq, Eq)]
pub struct Candidate {
    /// The entity itself.
    pub entity: Entity,
    /// Key of the squared distance between the player and the entity.
    pub distance_squared_bits: u32,
    /// Key of the angle between the player's forward direction and the
    /// direction to the entity.
    pub angle_bits: u32,
}

/// What the player's interact input asks for.
#[derive(Clone, Copy, Debug, PartialEq, Eq)]
pub enum Interaction {
    /// A target was chosen; the event is to be delivered to the dialogue step.
    Select(InteractEvent),
    /// The running conversation is to go on.
    Continue,
}

/// The candidate lies inside the interaction radius.
pub open spec fn in_reach(c: Candidate) -> bool {
    c.distance_squared_bits < INTERACT_RADIUS_SQUARED_BITS
}

/// The candidate can be chosen: it is in reach and its angle is a number.
pub open spec fn eligible(c: Candidate) -> bool {
    in_reach(c) && c.angle_bits < UNREACHED_ANGLE_BITS
}

/// Among the first `n` candidates, `i` is the one to choose: it is eligible,
/// no eligible candidate has a smaller angle, and every eligible candidate
/// before it has a larger one.
pub open spec fn is_nearest_among(s: Seq<Candidate>, n: int, i: int) -> bool {
    &&& 0 <= i < n <= s.len()
    &&& eligible(s[i])
    &&& forall|j: int| 0 <= j < n && eligible(#[trigger] s[j]) ==> s[i].angle_bits <= s[j].angle_bits
    &&& forall|j: int| 0 <= j < i && eligible(#[trigger] s[j]) ==> s[i].angle_bits < s[j].angle_bits
}

/// Among all candidates, `i` is the one to choose.
pub open spec fn is_nearest(s: Seq<Candidate>, i: int) -> bool {
    is_nearest_among(s, s.len() as int, i)
}

/// Some candidate can be chosen.
pub open spec fn has_eligible(s: Seq<Candidate>) -> bool {
    exists|j: int| 0 <= j < s.len() && eligible(#[trigger] s[j])
}

/// The entity that an interaction selects, if any.
pub open spec fn chosen_target(s: Seq<Candidate>) -> Option<Entity> {
    if exists|i: int| is_nearest(s, i) {
        Some(s[choose|i: int| is_nearest(s, i)].entity)
    } else {
        None
    }
}

/// What an interact input leads to, given the player's mode.
pub open spec fn interaction_outcome(
    state: PlayerState,
    just_pressed: bool,
    s: Seq<Candidate>,
) -> Result<Option<Interaction>, GameplayError> {
    if !just_pressed {
        Ok(None)
    } else if state == PlayerState::Dialog {
        Ok(Some(Interaction::Continue))
    } else {
        match chosen_target(s) {
            Some(entity) => Ok(Some(Interaction::Select(InteractEvent(entity)))),
            None => Err(GameplayError::NoQualifyingTarget),
        }
    }
}

/// At most one candidate is the one to choose.
pub proof fn lemma_nearest_is_unique(s: Seq<Candidate>, i: int, j: int)
    requires
        is_nearest(s, i),
        is_nearest(s, j),
    ensures
        i == j,
{
    if i < j {
        assert(eligible(s[i]));
        assert(s[j].angle_bits < s[i].angle_bits);
        assert(s[i].angle_bits <= s[j].angle_bits);
    } else if j < i {
        assert(eligible(s[j]));
        assert(s[i].angle_bits < s[j].angle_bits);
        assert(s[j].angle_bits <= s[i].angle_bits);
    }
}

/// A target is chosen exactly when some candidate is eligible.
pub proof fn lemma_target_exists_iff_eligible(s: Seq<Candidate>)
    ensures
        chosen_target(s).is_some() <==> has_eligible(s),
    decreases s.len(),
{
    if exists|i: int| is_nearest(s, i) {
        let i = choose|i: int| is_nearest(s, i);
        assert(eligible(s[i]));
    }
    if has_eligible(s) {
        let k = least_angle_index(s, s.len() as int);
        lemma_least_angle_index(s, s.len() as int);
        assert(is_nearest(s, k));
    }
}

/// The index chosen among the first `n` candidates, or `-1` where none of
/// them is eligible.
spec fn least_angle_index(s: Seq<Candidate>, n: int) -> int
    decreases n,
{
    if n <= 0 || n > s.len() {
        -1
    } else {
        let before = least_angle_index(s, n - 1);
        if eligible(s[n - 1]) && (before < 0 || s[n - 1].angle_bits < s[before].angle_bits) {
            n - 1
        } else {
            before
        }
    }
}

/// `least_angle_index` finds the candidate to choose wherever there is one.
proof fn lemma_least_angle_index(s: Seq<Candidate>, n: int)
    requires
        0 <= n <= s.len(),
    ensures
        least_angle_index(s, n) < 0 ==> forall|j: int| 0 <= j < n ==> !eligible(#[trigger] s[j]),
        least_angle_index(s, n) >= 0 ==> is_nearest_among(s, n, least_angle_index(s, n)),
    decreases n,
{
    if n > 0 {
        lemma_least_angle_index(s, n - 1);
    }
}

/// Chooses among the candidates: the eligible one with the smallest angle,
/// and of several with that angle the one that comes first.
pub fn select_target(candidates: &Vec<Candidate>) -> (chosen: Option<usize>)
    ensures
        match chosen {
            Some(i) => is_nearest(candidates@, i as int),
            None => !has_eligible(candidates@),
        },
{
    let mut best: Option<usize> = None;
    let mut best_angle: u32 = UNREACHED_ANGLE_BITS;
    let mut i: usize = 0;
    while i < candidates.len()
        invariant
            i <= candidates.len(),
            match best {
                Some(b) => is_nearest_among(candidates@, i as int, b as int) && best_angle
                    == candidates[b as int].angle_bits,
                None => best_angle == UNREACHED_ANGLE_BITS && forall|j: int|
                    0 <= j < i ==> !eligible(#[trigger] candidates[j]),
            },
        decreases candidates.len() - i,
    {
        let candidate = &candidates[i];
        if candidate.distance_squared_bits < INTERACT_RADIUS_SQUARED_BITS && candidate.angle_bits
            < best_angle {
            best = Some(i);
            best_angle = candidate.angle_bits;
        }
        i += 1;
    }
    best
}

/// One tick of the interaction step. An interact input that was just pressed
/// selects a target while the player is free and asks the conversation to go
/// on while the player is in a dialogue; without the input nothing happens.
pub fn handle_player_interaction(
    state: PlayerState,
    just_pressed: bool,
    candidates: &Vec<Candidate>,
) -> (outcome: Result<Option<Interaction>, GameplayError>)
    ensures
        outcome == interaction_outcome(state, just_pressed, candidates@),
{
    if !just_pressed {
        return Ok(None);
    }
    match state {
        PlayerState::Dialog => Ok(Some(Interaction::Continue)),
        PlayerState::Free => {
            match select_target(candidates) {
                Some(i) => {
                    proof {
                        let k = choose|k: int| is_nearest(candidates@, k);
                        lemma_nearest_is_unique(candidates@, i as int, k);
                    }
                    Ok(Some(Interaction::Select(InteractEvent(candidates[i].entity))))
                },
                None => {
                    proof {
                        if exists|k: int| is_nearest(candidates@, k) {
                            let k = choose|k: int| is_nearest(candidates@, k);
                            assert(eligible(candidates@[k]));
                        }
                    }
                    Err(GameplayError::NoQualifyingTarget)
                },
            }
        },
    }
}

} // verus!

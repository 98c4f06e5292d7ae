use bevy::prelude::Entity;
use ludum_dare_56::error::GameplayError;
use ludum_dare_56::interactable::InteractEvent;
use ludum_dare_56::player::{
    handle_player_interaction, select_target, Candidate, Interaction, PlayerState,
    PlayerStateController, INTERACT_RADIUS_SQUARED_BITS, UNREACHED_ANGLE_BITS,
};

fn candidate(id: u32, distance: f32, degrees: f32) -> Candidate {
    Candidate {
        entity: Entity::from_raw(id),
        distance_squared_bits: (distance * distance).to_bits(),
        angle_bits: degrees.to_radians().to_bits(),
    }
}

fn selected(id: u32) -> Result<Option<Interaction>, GameplayError> {
    Ok(Some(Interaction::Select(InteractEvent(Entity::from_raw(id)))))
}

#[test]
fn keys_are_the_bit_patterns_of_the_limits() {
    assert_eq!(INTERACT_RADIUS_SQUARED_BITS, (2.0f32 * 2.0f32).to_bits());
    assert_eq!(UNREACHED_ANGLE_BITS, f32::INFINITY.to_bits());
}

#[test]
fn facing_a_target_in_reach_selects_it() {
    let candidates = vec![Candidate {
        entity: Entity::from_raw(7),
        distance_squared_bits: (1.5f32 * 1.5f32).to_bits(),
        angle_bits: f32::acos(1.0).to_bits(),
    }];
    assert_eq!(f32::acos(1.0), 0.0);
    assert_eq!(
        handle_player_interaction(PlayerState::Free, true, &candidates),
        selected(7)
    );
}

#[test]
fn the_smaller_angle_wins() {
    let candidates = vec![candidate(1, 1.0, 10.0), candidate(2, 1.0, 30.0)];
    assert_eq!(
        handle_player_interaction(PlayerState::Free, true, &candidates),
        selected(1)
    );
    let swapped = vec![candidate(2, 1.0, 30.0), candidate(1, 1.0, 10.0)];
    assert_eq!(
        handle_player_interaction(PlayerState::Free, true, &swapped),
        selected(1)
    );
    assert_eq!(select_target(&swapped), Some(1));
}

#[test]
fn the_smaller_angle_wins_over_the_shorter_distance() {
    let candidates = vec![candidate(1, 0.2, 40.0), candidate(2, 1.9, 5.0)];
    assert_eq!(
        handle_player_interaction(PlayerState::Free, true, &candidates),
        selected(2)
    );
}

#[test]
fn nothing_in_reach_selects_nothing() {
    let candidates = vec![candidate(1, 2.5, 0.0), candidate(2, 10.0, 3.0)];
    assert_eq!(
        handle_player_interaction(PlayerState::Free, true, &candidates),
        Err(GameplayError::NoQualifyingTarget)
    );
    assert_eq!(select_target(&candidates), None);
    let nobody: Vec<Candidate> = Vec::new();
    assert_eq!(
        handle_player_interaction(PlayerState::Free, true, &nobody),
        Err(GameplayError::NoQualifyingTarget)
    );
}

#[test]
fn the_radius_itself_is_out_of_reach() {
    let on_the_edge = Candidate {
        entity: Entity::from_raw(1),
        distance_squared_bits: 4.0f32.to_bits(),
        angle_bits: 0.0f32.to_bits(),
    };
    assert_eq!(select_target(&vec![on_the_edge]), None);
    let just_inside = Candidate {
        entity: Entity::from_raw(1),
        distance_squared_bits: 4.0f32.to_bits() - 1,
        angle_bits: 0.0f32.to_bits(),
    };
    assert!(f32::from_bits(4.0f32.to_bits() - 1) < 4.0);
    assert_eq!(select_target(&vec![just_inside]), Some(0));
}

#[test]
fn of_equal_angles_the_first_seen_wins() {
    let candidates = vec![
        candidate(5, 1.0, 45.0),
        candidate(6, 0.5, 20.0),
        candidate(7, 1.5, 20.0),
        candidate(8, 0.1, 20.0),
    ];
    assert_eq!(select_target(&candidates), Some(1));
    assert_eq!(
        handle_player_interaction(PlayerState::Free, true, &candidates),
        selected(6)
    );
}

#[test]
fn a_target_behind_the_player_is_selected_when_alone() {
    let candidates = vec![candidate(3, 1.0, 180.0)];
    assert_eq!(
        handle_player_interaction(PlayerState::Free, true, &candidates),
        selected(3)
    );
}

#[test]
fn an_angle_that_is_no_number_is_never_selected() {
    let at_the_player = Candidate {
        entity: Entity::from_raw(1),
        distance_squared_bits: 0.0f32.to_bits(),
        angle_bits: f32::NAN.to_bits(),
    };
    assert_eq!(select_target(&vec![at_the_player]), None);
    let negative_nan = Candidate {
        entity: Entity::from_raw(2),
        distance_squared_bits: 0.0f32.to_bits(),
        angle_bits: (-f32::NAN).to_bits(),
    };
    assert_eq!(select_target(&vec![negative_nan]), None);
    let candidates = vec![at_the_player, candidate(9, 1.0, 170.0), negative_nan];
    assert_eq!(select_target(&candidates), Some(1));
}

#[test]
fn a_distance_that_is_no_number_is_out_of_reach() {
    let lost = Candidate {
        entity: Entity::from_raw(1),
        distance_squared_bits: f32::NAN.to_bits(),
        angle_bits: 0.0f32.to_bits(),
    };
    assert_eq!(select_target(&vec![lost]), None);
}

#[test]
fn without_the_input_nothing_happens() {
    let candidates = vec![candidate(1, 1.0, 0.0)];
    assert_eq!(
        handle_player_interaction(PlayerState::Free, false, &candidates),
        Ok(None)
    );
    assert_eq!(
        handle_player_interaction(PlayerState::Dialog, false, &candidates),
        Ok(None)
    );
}

#[test]
fn in_a_dialogue_the_input_continues_the_conversation() {
    let candidates = vec![candidate(1, 1.0, 0.0)];
    assert_eq!(
        handle_player_interaction(PlayerState::Dialog, true, &candidates),
        Ok(Some(Interaction::Continue))
    );
    let nobody: Vec<Candidate> = Vec::new();
    assert_eq!(
        handle_player_interaction(PlayerState::Dialog, true, &nobody),
        Ok(Some(Interaction::Continue))
    );
}

#[test]
fn the_game_starts_with_a_free_player() {
    let controller = PlayerStateController::new();
    assert_eq!(controller.get(), PlayerState::Free);
    assert!(PlayerState::Free.allows_movement());
    assert!(!PlayerState::Dialog.allows_movement());
}

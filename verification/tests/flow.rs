use bevy::prelude::{Entity, World};
use ludum_dare_56::dialog::{
    handle_yarnspinner_events, DialogueCommand, DialogueEffect, DialogueSession,
    DialogueSessionManager, DialogueSignal, EngineCall,
};
use ludum_dare_56::error::GameplayError;
use ludum_dare_56::npc::{handle_npc_interactions, Npc};
use ludum_dare_56::player::{
    handle_player_interaction, Candidate, Interaction, PlayerState,
};
use ludum_dare_56::quests::{start_quests, update_quest_status, QuestEvents, Quests};

fn someone_is_there(world: &World) -> bool {
    world.entities().len() >= 2
}

fn ahead(entity: Entity, distance: f32) -> Candidate {
    Candidate {
        entity,
        distance_squared_bits: (distance * distance).to_bits(),
        angle_bits: 0.0f32.to_bits(),
    }
}

#[test]
fn a_conversation_starts_a_quest_that_the_world_completes() {
    let mut world = World::new();
    let ant = world.spawn_empty().id();
    let stone = world.spawn_empty().id();
    world.despawn(stone);

    let mut quests: Quests<fn(&World) -> bool> = Quests::new();
    assert_eq!(quests.register("ant_intro", someone_is_there), Ok(()));
    let mut manager = DialogueSessionManager::new();

    // Nothing is pressed: nothing happens.
    let candidates = vec![ahead(ant, 1.5)];
    let idle = handle_player_interaction(manager.player().get(), false, &candidates);
    assert_eq!(idle, Ok(None));

    // The input selects the ant, and the ant's binding opens the session.
    let pressed = handle_player_interaction(manager.player().get(), true, &candidates);
    let event = match pressed {
        Ok(Some(Interaction::Select(event))) => event,
        other => panic!("no target was selected: {:?}", other),
    };
    assert_eq!(event.0, ant);
    let call = handle_npc_interactions(&mut manager, event, Some(&Npc("Ant_Start".to_string())));
    assert_eq!(call, Ok(EngineCall::StartSession("Ant_Start".to_string())));
    assert_eq!(manager.player().get(), PlayerState::Dialog);
    assert!(!manager.player().get().allows_movement());

    // While the session runs the same input continues it.
    let again = handle_player_interaction(manager.player().get(), true, &candidates);
    assert_eq!(again, Ok(Some(Interaction::Continue)));
    assert_eq!(manager.continue_session(), Ok(EngineCall::ContinueSession));
    assert_eq!(manager.current_session(), Some(DialogueSession { target: ant }));

    // The dialogue asks for the quest; the ledger starts it.
    let asked = handle_yarnspinner_events(
        &mut manager,
        DialogueSignal::CommandExecuted(DialogueCommand {
            name: "start_quest".to_string(),
            parameters: vec!["ant_intro".to_string()],
        }),
    );
    let requests = match asked {
        Ok(DialogueEffect::Quest(event)) => vec![event],
        other => panic!("no quest was asked for: {:?}", other),
    };
    assert_eq!(requests, vec![QuestEvents::StartQuest("ant_intro".to_string())]);
    assert_eq!(start_quests(&mut quests, &requests), 0);

    // The world does not satisfy the predicate yet.
    assert!(update_quest_status(&mut quests, &world).is_empty());

    // The session ends and the player is free again.
    let ended = handle_yarnspinner_events(&mut manager, DialogueSignal::SessionCompleted);
    assert_eq!(ended, Ok(DialogueEffect::SessionEnded(DialogueSession { target: ant })));
    assert_eq!(manager.player().get(), PlayerState::Free);
    assert!(manager.player().get().allows_movement());

    // A second creature appears: the quest completes, once.
    world.spawn_empty();
    assert_eq!(
        update_quest_status(&mut quests, &world),
        vec![QuestEvents::CompleteQuest("ant_intro".to_string())]
    );
    assert!(update_quest_status(&mut quests, &world).is_empty());
    let quest = quests.get("ant_intro").unwrap();
    assert!(quest.start && quest.complete);
}

#[test]
fn an_interaction_out_of_reach_opens_nothing() {
    let mut manager = DialogueSessionManager::new();
    let far = vec![ahead(Entity::from_raw(3), 2.0)];
    let pressed = handle_player_interaction(manager.player().get(), true, &far);
    assert_eq!(pressed, Err(GameplayError::NoQualifyingTarget));
    assert_eq!(manager.current_session(), None);
    assert_eq!(manager.player().get(), PlayerState::Free);
    assert_eq!(manager.continue_session(), Err(GameplayError::SessionOrderingFault));
    let late = handle_yarnspinner_events(&mut manager, DialogueSignal::SessionCompleted);
    assert_eq!(late, Err(GameplayError::SessionOrderingFault));
}

#[test]
fn only_a_duplicate_registration_is_fatal() {
    let faults = [
        (GameplayError::NoQualifyingTarget, false),
        (GameplayError::TargetWithoutDialogue, false),
        (GameplayError::QuestNotFound, false),
        (GameplayError::InvalidCommandArguments, false),
        (GameplayError::UnknownCommand, false),
        (GameplayError::SessionOrderingFault, false),
        (GameplayError::DuplicateQuest, true),
    ];
    for (fault, fatal) in faults {
        assert_eq!(fault.is_fatal_at_startup(), fatal);
    }
}

#[test]
fn default_values_are_the_starting_values() {
    let manager = DialogueSessionManager::default();
    assert_eq!(manager.current_session(), None);
    assert_eq!(manager.player().get(), PlayerState::Free);
    let quests: Quests<fn(&World) -> bool> = Quests::default();
    assert!(!quests.contains("ant_intro"));
}

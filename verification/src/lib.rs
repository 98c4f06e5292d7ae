//! Gameplay core of a small dialogue-and-quest game: who the player may talk
//! to, how a conversation runs from its start to its end, and how quests
//! advance while the world changes.

pub mod dialog;
pub mod error;
pub mod interactable;
pub mod npc;
pub mod player;
pub mod quests;
pub mod ui;

//! What the gameplay core hands to the screen.

pub mod dialog_box;

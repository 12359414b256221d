//! Verified game logic of a wave-based arena shooter: enemy waves, ability
//! slots and key bindings, health and scoring, sub-casts, mesh topology and
//! the text shown on the HUD.

pub mod text;
pub mod spawn;
pub mod slots;
pub mod keymap;
pub mod entity;
pub mod health;
pub mod timer;
pub mod score;
pub mod ability;
pub mod components;
pub mod modifiers;
pub mod localization;
pub mod mesh;
pub mod enemy;
pub mod ui;
pub mod player;

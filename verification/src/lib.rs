//! A slot machine: reels of symbols, paylines that pay when a line of
//! symbols matches (with wilds standing in for any symbol), the staged
//! animation that presents a spin, and the player's saved balance.
pub mod animation_state;
pub mod database;
pub mod display;
pub mod machine;
pub mod paylines;
pub mod symbols;
pub mod text;

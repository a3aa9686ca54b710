//! Verified core of a team-minigame session manager.
//!
//! Games hold two rosters of players (blue and red); toggling a game's
//! running flag emits an ordered sequence of remote-control command strings
//! for an external game server. The store enforces that a game name is
//! unique and that a player name belongs to at most one roster of a game.

pub mod channel;
pub mod commands;
pub mod laws;
pub mod lifecycle;
pub mod numtext;
pub mod store;

//! Team channel provisioning for a game-jam chat bot: who may ask, how a
//! game name is made safe, the ordered creation of a category with a text
//! and a voice channel, teardown, and the store that keeps each user to
//! one channel set.
pub mod text;
pub mod store;
pub mod provision;
pub mod teardown;
pub mod access;
pub mod render;
pub mod theme;
pub mod commands;

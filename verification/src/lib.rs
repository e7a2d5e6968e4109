//! Core engine of a multi-round elimination game.
//!
//! A population of players is repeatedly subjected to randomly chosen
//! scenarios (narrative events with mechanical side effects) until at most
//! one player remains alive.  This crate holds the round simulation and
//! scenario-selection engine together with the player and scenario data
//! model; presentation and roster loading live outside it.

pub mod item;
pub mod player;
pub mod pronouns;
pub mod rng;
pub mod scenario;
pub mod simulator;
pub mod status;

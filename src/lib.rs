//! Combat resolution for a season of one-on-one fighter battles: stat rolls,
//! scoring, injuries, rewards, matchmaking and the battle log.

pub mod batlog;
pub mod battle;
pub mod dice;
pub mod fighter;
pub mod game;
pub mod global;
pub mod round;
pub mod utils;

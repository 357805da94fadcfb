//! The rule subsystems: card model, bid ladder, trick engine, kitty rules,
//! scoring, and the small table-handling helpers they share.

pub mod bid;
pub mod card;
pub mod deal;
pub mod game;
pub mod hand;
pub mod kitty;
pub mod player;
pub mod taker;
pub mod trick;
pub mod utils;
pub mod score;

//! The CowardCoin economy: coins of several rarities appear in a channel,
//! members claim, give, invest and gamble them, and a small arena lets them
//! convert coins into experience.  This crate holds the rules of that game;
//! the Discord plumbing lives in the application around it.

pub mod bot_user;
pub mod chance;
pub mod coin;
pub mod coin_type;
pub mod commands;
pub mod communication;
pub mod dispatch;
pub mod environment;
pub mod flavor;
pub mod games;
pub mod rarity;
pub mod readiness;
pub mod responses;
pub mod schedule;
pub mod server;
pub mod ledger;
pub mod laws;
pub mod messages;
pub mod text;
pub mod user;
pub mod user_order;

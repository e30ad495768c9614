//! Game logic of a catch-the-fruit rhythm game, its online server and its web API:
//! scoring, judgements, chat, the client/server session protocol, menu navigation
//! and request validation.

pub mod chat;
pub mod frozen;
pub mod rulesets;
pub mod score;
pub mod azusa;
pub mod web_socket;
pub mod server;
pub mod api;
pub mod chart;
pub mod log;
pub mod screen;
pub mod replay;
pub mod ui;
pub mod gameplay;
pub mod result;

//! A match runner core for shogi engines that speak the USI line protocol.

pub mod clock;
pub mod config;
pub mod environment;
pub mod error;
pub mod game;
pub mod number;
pub mod player;
pub mod reporter;
pub mod rules;
pub mod runner;
pub mod stats;
pub mod text;
pub mod usi;

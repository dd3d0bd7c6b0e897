//! Core of a prize-draw service: per-user point balances, a per-user draw
//! cooldown, the prize catalog read from a manifest, and the draw that ties
//! them together.

pub mod bootstrap;
pub mod catalog;
pub mod config;
pub mod cooldown;
pub mod draw;
pub mod laws;
pub mod ledger;
pub mod persist;
pub mod text;

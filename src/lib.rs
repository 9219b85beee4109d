//! Turn resolution for a two-kingdom incremental clicker game.
//!
//! Players queue resource alteration events; a god action commits the turn.
//! Every change queued in a turn is measured against the values committed
//! before the turn, accumulated per resource, and applied at once.
pub mod text;
pub mod resource;
pub mod kingdom;
pub mod log;
pub mod game;
pub mod gui;

//! A chat responder built around a non-repeating randomized content
//! dispenser: it recognizes a few bang-prefixed commands and, for the
//! dispense command, hands out one advice template per requester per
//! cooldown window, never repeating a template until the whole pool has
//! been exhausted (per requester and, through a shared meta record,
//! across all requesters).

pub mod commands;
pub mod draw;
pub mod exclusion;
pub mod handler;
pub mod laws;
pub mod pool;
pub mod records;
pub mod table;
pub mod text;

//! A turn-based chase on a small rectangular field: one player, a swarm of
//! robots that step toward the player each tick, and mutual destruction of
//! whatever ends up sharing a cell.
//!
//! The executable types live in [`position`], [`entity`], [`spatial_index`],
//! [`field`] and [`command`]. The mathematical model that their contracts
//! speak of is in [`state`], and the general facts that follow from that
//! model are proved in [`laws`]. Random cells come from `rand`, through the
//! one function of `chance`; what is done with a drawn cell is an operation
//! of its own that takes the cell as an argument.

pub mod position;
pub mod entity;
pub mod spatial_index;
pub mod state;
pub mod command;
pub mod field;
mod chance;
pub mod laws;

//! The shape-and-state core of a layered training engine.
//!
//! A tensor is modelled by its shape, a list of axis lengths. The crate decides
//! which shapes each layer takes and gives back, when a backward pass may run,
//! which identity each learnable tensor carries, and which accumulator slot an
//! optimizer keeps for it. The arithmetic on the elements is left to the caller.

pub mod accuracies;
pub mod losses;
pub mod models;
pub mod networks;
pub mod optimizers;
pub mod params;
pub mod shape;
pub mod utils;

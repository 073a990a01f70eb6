//! Request logic of a distributed key-value object service.
//!
//! The library decides and computes; calls to storage tiers and to other nodes are made around
//! it, and what they return is handed to the next function.
use vstd::prelude::*;

pub mod admin;
pub mod batch;
pub mod cluster;
pub mod convert;
pub mod laws;
pub mod messages;
pub mod model;
pub mod order;
pub mod payload;
pub mod placement;
pub mod reads;
pub mod removal;
pub mod service;
pub mod spread;
pub mod status;
pub mod stream;
pub mod stripes;
pub mod text;
pub mod writes;

verus! {

} // verus!

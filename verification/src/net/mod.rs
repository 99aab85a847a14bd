//! The packets that the client and the server exchange.
use vstd::prelude::*;

pub mod server;
pub mod client;

verus! {

/// A position in the world, as the bit patterns of its three `f32` coordinates.
#[derive(Clone, Copy, Debug, PartialEq, Eq, Structural)]
pub struct Position {
    pub x: u32,
    pub y: u32,
    pub z: u32,
}

} // verus!

//! Packets that the server sends to a client.
use vstd::prelude::*;
use crate::item::ItemStack;
use super::Position;

verus! {

/// Tells a client that a player is in the world, and where.
#[derive(Debug)]
pub struct SpawnPlayer {
    pub username: String,
    pub position: Position,
}

/// Tells a client that a player has left.
#[derive(Debug)]
pub struct DespawnPlayer {
    pub username: String,
}

/// Tells a client that a player has moved.
#[derive(Debug)]
pub struct Move {
    pub username: String,
    pub position: Position,
}

/// Tells a client why the server is dropping it.
#[derive(Debug)]
pub struct NotifyDisconnection {
    pub reason: String,
}

/// Sets one stack of a client's inventory.
#[derive(Clone, Copy, Debug)]
pub struct ModifyInventory {
    pub stack: ItemStack,
}

/// An error to show to the player; a fatal one ends the session.
#[derive(Debug)]
pub struct DisplayError {
    pub message: String,
    pub fatal: bool,
}

/// A packet for a client.
#[derive(Debug)]
pub enum Packet {
    SpawnPlayer(SpawnPlayer),
    DespawnPlayer(DespawnPlayer),
    Move(Move),
    NotifyDisconnection(NotifyDisconnection),
    ModifyInventory(ModifyInventory),
    DisplayError(DisplayError),
}

} // verus!

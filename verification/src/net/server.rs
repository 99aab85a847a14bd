//! Packets that the client sends to the server.
use vstd::prelude::*;
use crate::item::ItemStack;
use super::Position;

verus! {

/// Asks to enter the world as an existing user.
#[derive(Debug)]
pub struct Login {
    pub username: String,
    pub password: String,
}

/// Reports the player's new position.
#[derive(Clone, Copy, Debug)]
pub struct Move {
    pub position: Position,
}

/// Reports the new contents of one inventory stack.
#[derive(Clone, Copy, Debug)]
pub struct ModifyInventory {
    pub stack: ItemStack,
}

/// Asks to create a user and its character.
#[derive(Debug)]
pub struct Signup {
    pub username: String,
    pub password: String,
}

/// A packet for the server.
#[derive(Debug)]
pub enum Packet {
    Login(Login),
    Move(Move),
    Heartbeat,
    Disconnect,
    ModifyInventory(ModifyInventory),
    Signup(Signup),
}

} // verus!

//! What the client does with the packets the server sends it, and when it sends heartbeats.
use vstd::prelude::*;
use crate::data::Data;
use crate::inventory::with_stack;
use crate::item::ItemStack;
use crate::net::Position;
use crate::net::client::Packet;

verus! {

/// How often the client tells the server it is still there, in microseconds.
pub const HEARTBEAT_INTERVAL_US: u64 = 10000000;

/// Whether the client, which last sent a heartbeat at `last`, should send one at `now`.
pub fn heartbeat_due(last: u64, now: u64) -> (r: bool)
    ensures
        r == (now > last && now - last > HEARTBEAT_INTERVAL_US),
{
    now > last && now - last > HEARTBEAT_INTERVAL_US
}

/// What the world must do after a packet from the server.
pub enum ClientEvent {
    /// Show a player at a position.
    Spawn { username: String, position: Position },
    /// Move a player shown already.
    MovePeer { username: String, position: Position },
    /// Stop showing a player.
    Despawn { username: String },
    /// The server dropped the client: leave.
    Disconnect { reason: String },
    /// Show an error; a fatal one ends the session.
    ShowError { message: String, fatal: bool },
    /// A stack of the inventory was set to this.
    InventoryChanged(ItemStack),
}

/// Takes a packet from the server into account: a stack sent is set in the inventory (and, as
/// every change to it, noted for report to the server), and what
/// the world must do is handed back.
pub fn apply_packet(data: &mut Data, packet: Packet) -> (r: ClientEvent)
    ensures
        match packet {
            Packet::ModifyInventory(m) => final(data).inventory@ == with_stack(old(data).inventory@, m.stack)
                && final(data).inventory.reports() == old(data).inventory.reports().push(m.stack)
                && r == ClientEvent::InventoryChanged(m.stack),
            _ => final(data).inventory == old(data).inventory,
        },
        final(data).current_recipe == old(data).current_recipe,
        final(data).recipe_selections == old(data).recipe_selections,
        packet matches Packet::SpawnPlayer(p) ==> r matches ClientEvent::Spawn { username, position }
            && username@ == p.username@ && position == p.position,
        packet matches Packet::Move(p) ==> r matches ClientEvent::MovePeer { username, position }
            && username@ == p.username@ && position == p.position,
        packet matches Packet::DespawnPlayer(p) ==> r matches ClientEvent::Despawn { username } && username@ == p.username@,
        packet matches Packet::NotifyDisconnection(p) ==> r matches ClientEvent::Disconnect { reason } && reason@ == p.reason@,
        packet matches Packet::DisplayError(p) ==> r matches ClientEvent::ShowError { message, fatal }
            && message@ == p.message@ && fatal == p.fatal,
{
    match packet {
        Packet::SpawnPlayer(p) => ClientEvent::Spawn { username: p.username, position: p.position },
        Packet::Move(p) => ClientEvent::MovePeer { username: p.username, position: p.position },
        Packet::DespawnPlayer(p) => ClientEvent::Despawn { username: p.username },
        Packet::NotifyDisconnection(p) => ClientEvent::Disconnect { reason: p.reason },
        Packet::DisplayError(p) => ClientEvent::ShowError { message: p.message, fatal: p.fatal },
        Packet::ModifyInventory(m) => {
            data.inventory.set(m.stack);
            ClientEvent::InventoryChanged(m.stack)
        },
    }
}

} // verus!

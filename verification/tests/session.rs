use aetheria::data::Data;
use aetheria::inventory::Inventory;
use aetheria::item::{Item, ItemStack};
use aetheria::net::client::{DespawnPlayer, DisplayError, ModifyInventory, Move, NotifyDisconnection, Packet, SpawnPlayer};
use aetheria::net::Position;
use aetheria::session::{apply_packet, heartbeat_due, ClientEvent, HEARTBEAT_INTERVAL_US};

fn empty_data() -> Data {
    Data { inventory: Inventory::new(), current_recipe: None, recipe_selections: None }
}

fn pos(x: f32, y: f32, z: f32) -> Position {
    Position { x: x.to_bits(), y: y.to_bits(), z: z.to_bits() }
}

#[test]
fn heartbeat_is_due_after_the_interval() {
    assert!(!heartbeat_due(1000, 1000 + HEARTBEAT_INTERVAL_US));
    assert!(heartbeat_due(1000, 1001 + HEARTBEAT_INTERVAL_US));
    assert!(!heartbeat_due(5000, 4000));
    assert_eq!(HEARTBEAT_INTERVAL_US, 10_000_000);
}

#[test]
fn modify_inventory_sets_the_stack() {
    let mut data = empty_data();
    data.inventory.add(ItemStack { item: Item::Wood, amount: 4 });
    let stack = ItemStack { item: Item::Wood, amount: 9 };
    let event = apply_packet(&mut data, Packet::ModifyInventory(ModifyInventory { stack }));
    assert!(matches!(event, ClientEvent::InventoryChanged(s) if s == stack));
    assert_eq!(data.inventory.get_items(), &[stack]);
    let ore = ItemStack { item: Item::CopperOre, amount: 1 };
    apply_packet(&mut data, Packet::ModifyInventory(ModifyInventory { stack: ore }));
    assert_eq!(data.inventory.get_items(), &[stack, ore]);
}

#[test]
fn peer_packets_become_world_events() {
    let mut data = empty_data();
    let p = pos(1.0, 2.0, 3.0);
    match apply_packet(&mut data, Packet::SpawnPlayer(SpawnPlayer { username: "ann".to_owned(), position: p })) {
        ClientEvent::Spawn { username, position } => {
            assert_eq!(username, "ann");
            assert_eq!(position, p);
        }
        _ => panic!("expected a spawn"),
    }
    match apply_packet(&mut data, Packet::Move(Move { username: "bob".to_owned(), position: p })) {
        ClientEvent::MovePeer { username, position } => {
            assert_eq!(username, "bob");
            assert_eq!(position, p);
        }
        _ => panic!("expected a move"),
    }
    match apply_packet(&mut data, Packet::DespawnPlayer(DespawnPlayer { username: "bob".to_owned() })) {
        ClientEvent::Despawn { username } => assert_eq!(username, "bob"),
        _ => panic!("expected a despawn"),
    }
    assert!(data.inventory.get_items().is_empty());
}

#[test]
fn disconnection_and_errors_are_reported() {
    let mut data = empty_data();
    match apply_packet(&mut data, Packet::NotifyDisconnection(NotifyDisconnection { reason: "Timed out".to_owned() })) {
        ClientEvent::Disconnect { reason } => assert_eq!(reason, "Timed out"),
        _ => panic!("expected a disconnection"),
    }
    match apply_packet(&mut data, Packet::DisplayError(DisplayError { message: "Wrong password".to_owned(), fatal: true })) {
        ClientEvent::ShowError { message, fatal } => {
            assert_eq!(message, "Wrong password");
            assert!(fatal);
        }
        _ => panic!("expected an error"),
    }
}

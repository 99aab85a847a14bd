use aetheria::inventory::Inventory;
use aetheria::item::{Item, ItemStack};

fn stack(item: Item, amount: u32) -> ItemStack {
    ItemStack { item, amount }
}

#[test]
fn new_inventory_is_empty() {
    let inv = Inventory::new();
    assert!(inv.get_items().is_empty());
    assert_eq!(inv.stack_of(Item::Wood), None);
}

#[test]
fn add_appends_new_items_in_order() {
    let mut inv = Inventory::new();
    inv.add(stack(Item::Wood, 2));
    inv.add(stack(Item::Fireglow, 1));
    assert_eq!(inv.get_items(), &[stack(Item::Wood, 2), stack(Item::Fireglow, 1)]);
}

#[test]
fn add_accumulates_on_existing_stack() {
    let mut inv = Inventory::new();
    inv.add(stack(Item::Wood, 2));
    inv.add(stack(Item::Fireglow, 1));
    inv.add(stack(Item::Wood, 5));
    assert_eq!(inv.get_items(), &[stack(Item::Wood, 7), stack(Item::Fireglow, 1)]);
    assert_eq!(inv.stack_of(Item::Wood), Some(stack(Item::Wood, 7)));
}

#[test]
fn set_replaces_amount_in_place() {
    let mut inv = Inventory::new();
    inv.add(stack(Item::Wood, 2));
    inv.add(stack(Item::Lamp, 1));
    inv.set(stack(Item::Wood, 9));
    assert_eq!(inv.get_items(), &[stack(Item::Wood, 9), stack(Item::Lamp, 1)]);
}

#[test]
fn set_appends_missing_item() {
    let mut inv = Inventory::new();
    inv.set(stack(Item::CopperOre, 4));
    assert_eq!(inv.get_items(), &[stack(Item::CopperOre, 4)]);
}

#[test]
fn set_then_lookup_gives_back_the_stack() {
    let mut inv = Inventory::new();
    inv.add(stack(Item::Wood, 1));
    inv.set(stack(Item::Wood, 5));
    assert_eq!(inv.stack_of(Item::Wood), Some(stack(Item::Wood, 5)));
    inv.set(stack(Item::Lamp, 0));
    assert_eq!(inv.stack_of(Item::Lamp), Some(stack(Item::Lamp, 0)));
}

#[test]
fn set_twice_keeps_the_last() {
    let mut a = Inventory::new();
    a.add(stack(Item::Wood, 1));
    a.set(stack(Item::Wood, 3));
    a.set(stack(Item::Wood, 8));
    let mut b = Inventory::new();
    b.add(stack(Item::Wood, 1));
    b.set(stack(Item::Wood, 8));
    assert_eq!(a.get_items(), b.get_items());
}

#[test]
fn remove_takes_away_and_stops_at_zero() {
    let mut inv = Inventory::new();
    inv.add(stack(Item::Wood, 5));
    inv.remove(stack(Item::Wood, 3));
    assert_eq!(inv.get_items(), &[stack(Item::Wood, 2)]);
    inv.remove(stack(Item::Wood, 10));
    assert_eq!(inv.get_items(), &[stack(Item::Wood, 0)]);
    inv.remove(stack(Item::Lamp, 1));
    assert_eq!(inv.get_items(), &[stack(Item::Wood, 0)]);
}

#[test]
fn add_up_to_the_largest_amount() {
    let mut inv = Inventory::new();
    inv.add(stack(Item::Wood, u32::MAX - 1));
    inv.add(stack(Item::Wood, 1));
    assert_eq!(inv.stack_of(Item::Wood), Some(stack(Item::Wood, u32::MAX)));
}

#[test]
fn removing_what_was_just_added_restores_the_inventory() {
    let mut inv = Inventory::new();
    inv.add(ItemStack { item: Item::Wood, amount: 4 });
    inv.add(ItemStack { item: Item::Lamp, amount: 1 });
    let before = inv.get_items().to_vec();
    let s = ItemStack { item: Item::Wood, amount: 9 };
    inv.add(s);
    inv.remove(s);
    assert_eq!(inv.get_items(), &before[..]);
    let ore = ItemStack { item: Item::CopperOre, amount: 2 };
    inv.add(ore);
    inv.remove(ore);
    assert_eq!(inv.stack_of(Item::CopperOre), Some(ItemStack { item: Item::CopperOre, amount: 0 }));
}

fn reported(inv: &mut Inventory) -> Vec<ItemStack> {
    inv.take_updates()
        .into_iter()
        .map(|p| match p {
            aetheria::net::server::Packet::ModifyInventory(m) => m.stack,
            other => panic!("unexpected packet {:?}", other),
        })
        .collect()
}

#[test]
fn every_change_is_reported_as_the_stack_then_stands() {
    let mut inv = Inventory::new();
    assert!(reported(&mut inv).is_empty());
    inv.add(stack(Item::Wood, 2));
    inv.add(stack(Item::Wood, 3));
    inv.set(stack(Item::Lamp, 7));
    inv.remove(stack(Item::Wood, 9));
    inv.remove(stack(Item::CopperOre, 1));
    assert_eq!(
        reported(&mut inv),
        vec![stack(Item::Wood, 2), stack(Item::Wood, 5), stack(Item::Lamp, 7), stack(Item::Wood, 0)]
    );
    assert!(reported(&mut inv).is_empty());
    assert_eq!(inv.get_items(), &[stack(Item::Wood, 0), stack(Item::Lamp, 7)]);
}

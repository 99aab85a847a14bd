use aetheria::item::{Item, ItemStack};

#[test]
fn item_names_are_shown_with_spaces() {
    assert_eq!(Item::Wood.to_string(), "Wood");
    assert_eq!(Item::Fireglow.to_string(), "Fireglow");
    assert_eq!(Item::Lamp.to_string(), "Lamp");
    assert_eq!(Item::CopperOre.to_string(), "Copper Ore");
    assert_eq!(Item::CopperIngot.to_string(), "Copper Ingot");
    assert_eq!(Item::CopperSword.to_string(), "Copper Sword");
}

#[test]
fn stack_text_is_name_then_amount() {
    assert_eq!(ItemStack { item: Item::Wood, amount: 3 }.to_string(), "Wood x3");
    assert_eq!(ItemStack { item: Item::CopperOre, amount: 0 }.to_string(), "Copper Ore x0");
    assert_eq!(ItemStack { item: Item::Lamp, amount: 4294967295 }.to_string(), "Lamp x4294967295");
    assert_eq!(ItemStack { item: Item::CopperIngot, amount: 120 }.to_string(), "Copper Ingot x120");
}

#[test]
fn item_numbers_round_trip() {
    let all = [Item::Wood, Item::Fireglow, Item::Lamp, Item::CopperOre, Item::CopperIngot, Item::CopperSword];
    for (i, item) in all.iter().enumerate() {
        assert_eq!(item.to_i64(), Some(i as i64));
        assert_eq!(Item::from_i64(i as i64), Some(*item));
    }
}

#[test]
fn unknown_item_numbers_name_nothing() {
    assert_eq!(Item::from_i64(6), None);
    assert_eq!(Item::from_i64(-1), None);
    assert_eq!(Item::from_i64(i64::MAX), None);
}

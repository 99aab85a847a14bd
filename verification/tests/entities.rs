use aetheria::data::Data;
use aetheria::entities::{CopperOre, CraftingBench, Firefly, Furnace, Interactable, Named, Tree};
use aetheria::inventory::Inventory;
use aetheria::item::{Item, ItemStack};

fn empty_data() -> Data {
    Data { inventory: Inventory::new(), current_recipe: None, recipe_selections: None }
}

#[test]
fn entity_names() {
    assert_eq!(Tree { gathered: false }.get_name(), "Tree");
    assert_eq!(CopperOre { gathered: false }.get_name(), "Copper Ore");
    assert_eq!(Firefly { gathered: false, glowing: true }.get_name(), "Sunset Firefly");
    assert_eq!(Furnace.get_name(), "Furnace");
    assert_eq!(CraftingBench.get_name(), "Crafting Bench");
}

#[test]
fn gathering_a_tree_gives_wood_once() {
    let mut data = empty_data();
    let mut tree = Tree { gathered: false };
    assert!(tree.active());
    tree.interact(&mut data);
    assert!(!tree.active());
    assert_eq!(data.inventory.get_items(), &[ItemStack { item: Item::Wood, amount: 1 }]);
}

#[test]
fn gathering_ore_gives_copper_ore() {
    let mut data = empty_data();
    let mut ore = CopperOre { gathered: false };
    ore.interact(&mut data);
    ore.interact(&mut data);
    assert!(!ore.active());
    assert_eq!(data.inventory.get_items(), &[ItemStack { item: Item::CopperOre, amount: 2 }]);
}

#[test]
fn firefly_is_active_only_while_glowing() {
    let mut data = empty_data();
    let dark = Firefly { gathered: false, glowing: false };
    assert!(!dark.active());
    let mut lit = Firefly { gathered: false, glowing: true };
    assert!(lit.active());
    lit.interact(&mut data);
    assert!(!lit.active());
    assert_eq!(data.inventory.get_items(), &[ItemStack { item: Item::Fireglow, amount: 1 }]);
}

#[test]
fn furnace_opens_smelting() {
    let mut data = empty_data();
    let mut furnace = Furnace;
    assert!(furnace.active());
    furnace.interact(&mut data);
    let recipe = data.current_recipe.expect("recipe opened");
    assert_eq!(recipe.ingredients, vec![ItemStack { item: Item::CopperOre, amount: 3 }]);
    assert_eq!(recipe.outputs, vec![ItemStack { item: Item::CopperIngot, amount: 1 }]);
}

#[test]
fn bench_offers_lamp_and_sword() {
    let mut data = empty_data();
    let mut bench = CraftingBench;
    assert!(bench.active());
    bench.interact(&mut data);
    let recipes = data.recipe_selections.expect("choice opened");
    assert_eq!(recipes.len(), 2);
    assert_eq!(
        recipes[0].ingredients,
        vec![ItemStack { item: Item::Wood, amount: 3 }, ItemStack { item: Item::Fireglow, amount: 2 }]
    );
    assert_eq!(recipes[0].outputs, vec![ItemStack { item: Item::Lamp, amount: 1 }]);
    assert_eq!(
        recipes[1].ingredients,
        vec![ItemStack { item: Item::Wood, amount: 2 }, ItemStack { item: Item::CopperIngot, amount: 2 }]
    );
    assert_eq!(recipes[1].outputs, vec![ItemStack { item: Item::CopperSword, amount: 1 }]);
}

#[test]
fn gathering_appends_the_stack_and_reports_it() {
    let mut data = empty_data();
    data.inventory.add(ItemStack { item: Item::Lamp, amount: 1 });
    data.inventory.take_updates();
    CopperOre { gathered: false }.interact(&mut data);
    CopperOre { gathered: false }.interact(&mut data);
    assert_eq!(
        data.inventory.get_items(),
        &[ItemStack { item: Item::Lamp, amount: 1 }, ItemStack { item: Item::CopperOre, amount: 2 }]
    );
    let reported: Vec<ItemStack> = data
        .inventory
        .take_updates()
        .into_iter()
        .map(|p| match p {
            aetheria::net::server::Packet::ModifyInventory(m) => m.stack,
            other => panic!("unexpected packet {:?}", other),
        })
        .collect();
    assert_eq!(
        reported,
        vec![ItemStack { item: Item::CopperOre, amount: 1 }, ItemStack { item: Item::CopperOre, amount: 2 }]
    );
}

use aetheria::data::{craft, CloseHandler, CraftButtonHandler, Data, Recipe, RecipeSelectorHandler};
use aetheria::inventory::Inventory;
use aetheria::item::{Item, ItemStack};

fn stack(item: Item, amount: u32) -> ItemStack {
    ItemStack { item, amount }
}

fn lamp() -> Recipe {
    Recipe {
        ingredients: vec![stack(Item::Wood, 3), stack(Item::Fireglow, 2)],
        outputs: vec![stack(Item::Lamp, 1)],
    }
}

fn data_with(stacks: &[ItemStack]) -> Data {
    let mut inventory = Inventory::new();
    for s in stacks {
        inventory.add(*s);
    }
    Data { inventory, current_recipe: Some(lamp()), recipe_selections: None }
}

#[test]
fn has_ingredients_checks_each_ingredient() {
    let data = data_with(&[stack(Item::Wood, 3), stack(Item::Fireglow, 2)]);
    assert!(lamp().has_ingredients(&data.inventory));
    let data = data_with(&[stack(Item::Wood, 3), stack(Item::Fireglow, 1)]);
    assert!(!lamp().has_ingredients(&data.inventory));
    let data = data_with(&[stack(Item::Wood, 10)]);
    assert!(!lamp().has_ingredients(&data.inventory));
}

#[test]
fn recipe_without_ingredients_is_always_met() {
    let r = Recipe { ingredients: vec![], outputs: vec![stack(Item::Wood, 1)] };
    assert!(r.has_ingredients(&Inventory::new()));
}

#[test]
fn crafting_consumes_ingredients_and_adds_outputs() {
    let mut data = data_with(&[stack(Item::Wood, 5), stack(Item::Fireglow, 2)]);
    craft(&lamp(), &mut data);
    assert_eq!(
        data.inventory.get_items(),
        &[stack(Item::Wood, 2), stack(Item::Fireglow, 0), stack(Item::Lamp, 1)]
    );
    assert!(data.current_recipe.is_none());
}

#[test]
fn crafting_without_ingredients_changes_nothing() {
    let mut data = data_with(&[stack(Item::Wood, 1)]);
    craft(&lamp(), &mut data);
    assert_eq!(data.inventory.get_items(), &[stack(Item::Wood, 1)]);
    assert!(data.current_recipe.is_some());
}

#[test]
fn craft_button_crafts_its_recipe() {
    let mut data = data_with(&[stack(Item::Wood, 3), stack(Item::Fireglow, 2), stack(Item::Lamp, 1)]);
    let mut button = CraftButtonHandler { recipe: lamp() };
    button.handle(&mut data);
    assert_eq!(
        data.inventory.get_items(),
        &[stack(Item::Wood, 0), stack(Item::Fireglow, 0), stack(Item::Lamp, 2)]
    );
    assert!(data.current_recipe.is_none());
}

#[test]
fn close_button_closes_the_crafting_window() {
    let mut data = data_with(&[stack(Item::Wood, 3)]);
    CloseHandler.handle(&mut data);
    assert!(data.current_recipe.is_none());
    assert_eq!(data.inventory.get_items(), &[stack(Item::Wood, 3)]);
}

#[test]
fn choosing_a_recipe_opens_it() {
    let mut data = data_with(&[]);
    data.current_recipe = None;
    data.recipe_selections = Some(vec![lamp()]);
    let mut choice = RecipeSelectorHandler { recipe: lamp() };
    choice.handle(&mut data);
    assert!(data.recipe_selections.is_none());
    let chosen = data.current_recipe.expect("recipe chosen");
    assert_eq!(chosen.ingredients, lamp().ingredients);
    assert_eq!(chosen.outputs, lamp().outputs);
}

#[test]
fn recipe_copy_keeps_everything() {
    let r = lamp();
    let c = r.clone();
    assert_eq!(c.ingredients, r.ingredients);
    assert_eq!(c.outputs, r.outputs);
}

#[test]
fn crafting_reports_each_stack_it_changes() {
    let mut data = data_with(&[stack(Item::Wood, 5), stack(Item::Fireglow, 2)]);
    data.inventory.take_updates();
    craft(&lamp(), &mut data);
    let reported: Vec<ItemStack> = data
        .inventory
        .take_updates()
        .into_iter()
        .map(|p| match p {
            aetheria::net::server::Packet::ModifyInventory(m) => m.stack,
            other => panic!("unexpected packet {:?}", other),
        })
        .collect();
    assert_eq!(reported, vec![stack(Item::Wood, 2), stack(Item::Fireglow, 0), stack(Item::Lamp, 1)]);
}

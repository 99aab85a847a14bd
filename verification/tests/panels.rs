use aetheria::data::{Data, Recipe};
use aetheria::inventory::Inventory;
use aetheria::item::{Item, ItemStack};
use aetheria::panels::{
    craft_lines, interaction_prompt, inventory_line_of, inventory_window, recipe_labels, Palette, Tone,
};
use aetheria::ui::{Color, HAlign, Size, VAlign};

fn stack(item: Item, amount: u32) -> ItemStack {
    ItemStack { item, amount }
}

fn gray(v: f32) -> Color {
    Color { r: v.to_bits(), g: v.to_bits(), b: v.to_bits(), a: 1.0f32.to_bits() }
}

fn palette() -> Palette {
    Palette { background: gray(0.1), highlight: gray(0.9), success: gray(0.5) }
}

fn lamp() -> Recipe {
    Recipe { ingredients: vec![stack(Item::Wood, 3), stack(Item::Fireglow, 2)], outputs: vec![stack(Item::Lamp, 1)] }
}

#[test]
fn inventory_lines_use_the_declared_item_names() {
    assert_eq!(inventory_line_of(stack(Item::CopperOre, 12)), "CopperOre x12");
    assert_eq!(inventory_line_of(stack(Item::Wood, 0)), "Wood x0");
}

#[test]
fn inventory_window_lists_every_stack() {
    let mut inventory = Inventory::new();
    inventory.add(stack(Item::Wood, 3));
    inventory.add(stack(Item::CopperIngot, 7));
    let w = inventory_window(&inventory, &palette());
    let lines: Vec<&str> = w.child.child.children.iter().map(|t| t.content.as_str()).collect();
    assert_eq!(lines, vec!["Wood x3", "CopperIngot x7"]);
    assert!(w.child.child.children.iter().all(|t| t.color == palette().highlight));
    assert_eq!(w.child.child.separation, 3);
    assert_eq!(w.child.child.align, HAlign::Left);
    assert_eq!((w.child.top, w.child.bottom, w.child.left, w.child.right), (2, 2, 2, 2));
    assert_eq!(w.color, palette().background);
    assert_eq!(w.border_color, palette().highlight);
    assert_eq!(w.border_radius, 1);
}

#[test]
fn craft_window_shows_ingredients_against_the_inventory() {
    let mut inventory = Inventory::new();
    inventory.add(stack(Item::Wood, 5));
    inventory.add(stack(Item::Fireglow, 1));
    let data = Data { inventory, current_recipe: Some(lamp()), recipe_selections: None };
    let lines = craft_lines(&data).unwrap();
    let got: Vec<(Tone, &str)> = lines.iter().map(|l| (l.tone, l.content.as_str())).collect();
    assert_eq!(
        got,
        vec![
            (Tone::Highlight, "Ingredients"),
            (Tone::Success, "Wood 5/3"),
            (Tone::Highlight, "Fireglow 1/2"),
            (Tone::Clear, ""),
            (Tone::Highlight, "Outputs"),
            (Tone::Highlight, "Lamp x1"),
        ]
    );
}

#[test]
fn craft_window_title_turns_green_when_every_ingredient_is_held() {
    let mut inventory = Inventory::new();
    inventory.add(stack(Item::Wood, 3));
    inventory.add(stack(Item::Fireglow, 2));
    let data = Data { inventory, current_recipe: Some(lamp()), recipe_selections: None };
    let lines = craft_lines(&data).unwrap();
    assert_eq!(lines[0].tone, Tone::Success);
    assert_eq!(lines[1].content, "Wood 3/3");
    assert_eq!(lines[2].content, "Fireglow 2/2");
}

#[test]
fn craft_window_counts_a_missing_item_as_zero() {
    let data = Data { inventory: Inventory::new(), current_recipe: Some(lamp()), recipe_selections: None };
    let lines = craft_lines(&data).unwrap();
    assert_eq!(lines[1].content, "Wood 0/3");
    assert_eq!(lines[1].tone, Tone::Highlight);
}

#[test]
fn no_craft_window_without_a_recipe() {
    let data = Data { inventory: Inventory::new(), current_recipe: None, recipe_selections: None };
    assert!(craft_lines(&data).is_none());
}

#[test]
fn recipe_labels_name_the_first_output() {
    let sword = Recipe { ingredients: vec![stack(Item::CopperIngot, 2)], outputs: vec![stack(Item::CopperSword, 1)] };
    assert_eq!(recipe_labels(&vec![lamp(), sword]), vec!["Lamp x1".to_owned(), "Copper Sword x1".to_owned()]);
    assert!(recipe_labels(&vec![]).is_empty());
}

#[test]
fn interaction_prompt_shows_the_key_and_the_name() {
    let p = interaction_prompt("Furnace", &palette());
    let pair = &p.child.child;
    assert_eq!(pair.left.child.child.content, "F");
    assert_eq!((pair.left.child.top, pair.left.child.bottom, pair.left.child.left, pair.left.child.right), (1, 1, 1, 0));
    assert_eq!(pair.left.border_radius, 1);
    assert_eq!(pair.right.content, "Furnace");
    assert_eq!(pair.align, VAlign::Center);
    assert_eq!(pair.separation, 2);
    assert_eq!(pair.left_size, Size { x: 0, y: 0 });
    assert_eq!((p.child.top, p.child.bottom, p.child.left, p.child.right), (2, 2, 2, 2));
    assert_eq!(p.color, palette().background);
    assert_eq!(p.border_color, palette().highlight);
}

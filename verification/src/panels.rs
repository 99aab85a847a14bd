//! The windows of the interface: what they say, and the widgets they are built of.
use vstd::prelude::*;
use crate::item::{Item, ItemStack, item_name, stack_text};
use crate::inventory::{Inventory, amount_of};
use crate::data::{Data, Recipe, holds_ingredients};
use crate::text::{decimal, push_decimal, push_char};
use crate::ui::{Color, Container, Padding, HPair, VList, Text, HAlign, VAlign, Element};

verus! {

/// The colors of the interface.
#[derive(Clone, Copy, Debug, PartialEq, Eq, Structural)]
pub struct Palette {
    pub background: Color,
    pub highlight: Color,
    pub success: Color,
}

/// How a line of a window is colored.
#[derive(Clone, Copy, Debug, PartialEq, Eq, Structural)]
pub enum Tone {
    Success,
    Highlight,
    /// Fully transparent.
    Clear,
}

/// A line of a window.
pub struct Line {
    pub tone: Tone,
    pub content: String,
}

/// The name of an item as the inventory window shows it (its declared name).
pub open spec fn item_debug_name(item: Item) -> Seq<char> {
    match item {
        Item::Wood => "Wood"@,
        Item::Fireglow => "Fireglow"@,
        Item::Lamp => "Lamp"@,
        Item::CopperOre => "CopperOre"@,
        Item::CopperIngot => "CopperIngot"@,
        Item::CopperSword => "CopperSword"@,
    }
}

/// A line of the inventory window: the item's declared name, ` x`, and the amount.
pub open spec fn inventory_line(stack: ItemStack) -> Seq<char> {
    item_debug_name(stack.item) + " x"@ + decimal(stack.amount as nat)
}

/// The line of the crafting window for an ingredient: its name, what the inventory holds of it,
/// `/`, and what the recipe needs.
pub open spec fn ingredient_line(ingredient: ItemStack, held: nat) -> Seq<char> {
    item_name(ingredient.item) + " "@ + decimal(held) + "/"@ + decimal(ingredient.amount as nat)
}

/// The tone of a line that is met where `met` holds.
pub open spec fn tone_of(met: bool) -> Tone {
    if met { Tone::Success } else { Tone::Highlight }
}

/// The lines of the crafting window for `recipe` and the stacks `inv`: `Ingredients`, one line
/// per ingredient, an empty line, `Outputs`, and one line per output.
pub open spec fn craft_window_lines(ingredients: Seq<ItemStack>, outputs: Seq<ItemStack>, inv: Seq<ItemStack>) -> Seq<(Tone, Seq<char>)> {
    seq![(tone_of(holds_ingredients(ingredients, inv)), "Ingredients"@)]
        + ingredients.map_values(|i: ItemStack| (tone_of(amount_of(inv, i.item) >= i.amount), ingredient_line(i, amount_of(inv, i.item))))
        + seq![(Tone::Clear, Seq::<char>::empty()), (Tone::Highlight, "Outputs"@)]
        + outputs.map_values(|o: ItemStack| (Tone::Highlight, stack_text(o)))
}

/// Whether `lines` say `want`, line by line.
pub open spec fn lines_are(lines: Seq<Line>, want: Seq<(Tone, Seq<char>)>) -> bool {
    &&& lines.len() == want.len()
    &&& forall|i: int| 0 <= i < lines.len() ==> (#[trigger] lines[i]).tone == want[i].0 && lines[i].content@ == want[i].1
}

fn line(tone: Tone, content: String) -> (r: Line)
    ensures
        r.tone == tone,
        r.content@ == content@,
{
    Line { tone, content }
}

fn push_line(lines: &mut Vec<Line>, tone: Tone, content: String)
    ensures
        final(lines)@.len() == old(lines)@.len() + 1,
        forall|i: int| 0 <= i < old(lines)@.len() ==> #[trigger] final(lines)@[i] == old(lines)@[i],
        final(lines)@[old(lines)@.len() as int].tone == tone,
        final(lines)@[old(lines)@.len() as int].content@ == content@,
{
    lines.push(line(tone, content));
}

/// The lines of the crafting window, where a recipe is being crafted.
pub fn craft_lines(data: &Data) -> (r: Option<Vec<Line>>)
    ensures
        r is None <==> data.current_recipe is None,
        data.current_recipe matches Some(recipe) ==> r matches Some(lines) && lines_are(
            lines@,
            craft_window_lines(recipe.ingredients@, recipe.outputs@, data.inventory@),
        ),
{
    let recipe = match &data.current_recipe {
        Some(recipe) => recipe,
        None => return None,
    };
    let ghost want = craft_window_lines(recipe.ingredients@, recipe.outputs@, data.inventory@);
    let mut lines: Vec<Line> = Vec::new();
    let met = recipe.has_ingredients(&data.inventory);
    push_line(&mut lines, if met { Tone::Success } else { Tone::Highlight }, "Ingredients".to_owned());
    let mut i: usize = 0;
    while i < recipe.ingredients.len()
        invariant
            i <= recipe.ingredients@.len(),
            want == craft_window_lines(recipe.ingredients@, recipe.outputs@, data.inventory@),
            lines@.len() == 1 + i,
            forall|j: int| 0 <= j < lines@.len() ==> (#[trigger] lines@[j]).tone == want[j].0 && lines@[j].content@ == want[j].1,
        decreases recipe.ingredients.len() - i,
    {
        let ingredient = recipe.ingredients[i];
        let held: u32 = match data.inventory.stack_of(ingredient.item) {
            Some(stack) => stack.amount,
            None => 0,
        };
        let mut s = String::new();
        ingredient.item.push_name(&mut s);
        push_char(&mut s, ' ');
        push_decimal(&mut s, held);
        push_char(&mut s, '/');
        push_decimal(&mut s, ingredient.amount);
        proof {
            reveal_strlit(" ");
            reveal_strlit("/");
            assert(s@ == ingredient_line(ingredient, held as nat));
        }
        push_line(&mut lines, if held >= ingredient.amount { Tone::Success } else { Tone::Highlight }, s);
        i = i + 1;
    }
    push_line(&mut lines, Tone::Clear, String::new());
    push_line(&mut lines, Tone::Highlight, "Outputs".to_owned());
    let mut k: usize = 0;
    while k < recipe.outputs.len()
        invariant
            k <= recipe.outputs@.len(),
            want == craft_window_lines(recipe.ingredients@, recipe.outputs@, data.inventory@),
            lines@.len() == 3 + recipe.ingredients@.len() + k,
            forall|j: int| 0 <= j < lines@.len() ==> (#[trigger] lines@[j]).tone == want[j].0 && lines@[j].content@ == want[j].1,
        decreases recipe.outputs.len() - k,
    {
        let output = recipe.outputs[k];
        push_line(&mut lines, Tone::Highlight, output.to_string());
        k = k + 1;
    }
    Some(lines)
}

/// Appends the declared name of `item` to `s`.
fn push_debug_name(item: Item, s: &mut String)
    ensures
        final(s)@ == old(s)@ + item_debug_name(item),
{
    match item {
        Item::Wood => s.append("Wood"),
        Item::Fireglow => s.append("Fireglow"),
        Item::Lamp => s.append("Lamp"),
        Item::CopperOre => s.append("CopperOre"),
        Item::CopperIngot => s.append("CopperIngot"),
        Item::CopperSword => s.append("CopperSword"),
    }
}

/// The line of the inventory window for `stack`.
pub fn inventory_line_of(stack: ItemStack) -> (r: String)
    ensures
        r@ == inventory_line(stack),
{
    let mut s = String::new();
    push_debug_name(stack.item, &mut s);
    s.append(" x");
    push_decimal(&mut s, stack.amount);
    s
}

/// The inventory window: one highlighted line per stack, 3 pixels apart, with 2 pixels of
/// padding, on the background color inside a 1-pixel highlighted border.
pub fn inventory_window(inventory: &Inventory, palette: &Palette) -> (r: Container<Padding<VList<Text>>>)
    ensures
        r.child.child.children@.len() == inventory@.len(),
        forall|i: int| 0 <= i < inventory@.len() ==> (#[trigger] r.child.child.children@[i]).content@ == inventory_line(inventory@[i])
            && r.child.child.children@[i].color == palette.highlight,
        r.child.child.separation == 3,
        r.child.child.align == HAlign::Left,
        r.child.top == 2 && r.child.bottom == 2 && r.child.left == 2 && r.child.right == 2,
        r.color == palette.background,
        r.border_radius == 1,
        r.border_color == palette.highlight,
{
    let stacks = inventory.get_items();
    let mut texts: Vec<Text> = Vec::new();
    let mut i: usize = 0;
    while i < stacks.len()
        invariant
            i <= stacks@.len(),
            stacks@ == inventory@,
            texts@.len() == i,
            forall|j: int| 0 <= j < i ==> (#[trigger] texts@[j]).content@ == inventory_line(inventory@[j])
                && texts@[j].color == palette.highlight,
        decreases stacks.len() - i,
    {
        texts.push(Text { color: palette.highlight, content: inventory_line_of(stacks[i]) });
        i = i + 1;
    }
    let list = VList { children: texts, separation: 3, align: HAlign::Left };
    Container { child: Padding::new_uniform(list, 2), color: palette.background, border_radius: 1, border_color: palette.highlight }
}

/// The labels of the recipe choice: the first output of each recipe.
pub fn recipe_labels(recipes: &Vec<Recipe>) -> (r: Vec<String>)
    requires
        forall|i: int| 0 <= i < recipes@.len() ==> (#[trigger] recipes@[i]).outputs@.len() > 0,
    ensures
        r@.len() == recipes@.len(),
        forall|i: int| 0 <= i < recipes@.len() ==> (#[trigger] r@[i])@ == stack_text(recipes@[i].outputs@[0]),
{
    let mut r: Vec<String> = Vec::new();
    let mut i: usize = 0;
    while i < recipes.len()
        invariant
            i <= recipes@.len(),
            forall|j: int| 0 <= j < recipes@.len() ==> (#[trigger] recipes@[j]).outputs@.len() > 0,
            r@.len() == i,
            forall|j: int| 0 <= j < i ==> (#[trigger] r@[j])@ == stack_text(recipes@[j].outputs@[0]),
        decreases recipes.len() - i,
    {
        let label = recipes[i].outputs[0].to_string();
        r.push(label);
        i = i + 1;
    }
    r
}

/// The prompt shown next to something the player can interact with: the key `F` in a small
/// bordered box, then the thing's name, centered, 2 pixels apart, all inside a padded,
/// bordered box.
pub fn interaction_prompt(name: &str, palette: &Palette) -> (r: Container<Padding<HPair<Container<Padding<Text>>, Text>>>)
    ensures
        r.child.child.left.child.child.content@ == "F"@,
        r.child.child.left.child.child.color == palette.highlight,
        r.child.child.left.child.top == 1 && r.child.child.left.child.bottom == 1,
        r.child.child.left.child.left == 1 && r.child.child.left.child.right == 0,
        r.child.child.left.color == palette.background,
        r.child.child.left.border_color == palette.highlight,
        r.child.child.left.border_radius == 1,
        r.child.child.right.content@ == name@,
        r.child.child.right.color == palette.highlight,
        r.child.child.align == VAlign::Center,
        r.child.child.separation == 2,
        r.child.child.left_size == (crate::ui::Size { x: 0, y: 0 }),
        r.child.child.right_size == (crate::ui::Size { x: 0, y: 0 }),
        r.child.top == 2 && r.child.bottom == 2 && r.child.left == 2 && r.child.right == 2,
        r.border_radius == 1,
        r.border_color == palette.highlight,
        r.color == palette.background,
{
    let f = Text { color: palette.highlight, content: "F".to_owned() };
    let padded_f = Padding { child: f, top: 1, bottom: 1, left: 1, right: 0 };
    let left = Container { child: padded_f, color: palette.background, border_color: palette.highlight, border_radius: 1 };
    let right = Text { color: palette.highlight, content: name.to_owned() };
    let hpair = HPair::new(left, right, VAlign::Center, 2);
    let padding = Padding { child: hpair, top: 2, bottom: 2, left: 2, right: 2 };
    Container { child: padding, border_radius: 1, border_color: palette.highlight, color: palette.background }
}

/// In the crafting window, the title is green exactly when the inventory holds every
/// ingredient, and the line of an ingredient is green exactly when the inventory holds at least
/// its amount (highlighted otherwise); so with every ingredient held, every ingredient line is
/// green. The window has the title, a line per ingredient, a blank line, `Outputs`, and a line
/// per output.
pub proof fn lemma_craft_window_tones(ingredients: Seq<ItemStack>, outputs: Seq<ItemStack>, inv: Seq<ItemStack>)
    ensures
        craft_window_lines(ingredients, outputs, inv).len() == ingredients.len() + outputs.len() + 3,
        (craft_window_lines(ingredients, outputs, inv)[0].0 == Tone::Success) == holds_ingredients(ingredients, inv),
        forall|i: int| 0 <= i < ingredients.len() ==> {
            &&& ((#[trigger] craft_window_lines(ingredients, outputs, inv)[i + 1]).0 == Tone::Success)
                == (amount_of(inv, ingredients[i].item) >= ingredients[i].amount)
            &&& ((craft_window_lines(ingredients, outputs, inv)[i + 1]).0 == Tone::Highlight)
                == (amount_of(inv, ingredients[i].item) < ingredients[i].amount)
        },
        holds_ingredients(ingredients, inv) ==> forall|i: int| 0 <= i < ingredients.len()
            ==> (#[trigger] craft_window_lines(ingredients, outputs, inv)[i + 1]).0 == Tone::Success,
{
    let lines = craft_window_lines(ingredients, outputs, inv);
    assert forall|i: int| 0 <= i < ingredients.len() implies {
        &&& ((#[trigger] lines[i + 1]).0 == Tone::Success) == (amount_of(inv, ingredients[i].item) >= ingredients[i].amount)
        &&& (lines[i + 1].0 == Tone::Highlight) == (amount_of(inv, ingredients[i].item) < ingredients[i].amount)
    } by {
        assert(lines[i + 1] == ingredients.map_values(|g: ItemStack| (
            tone_of(amount_of(inv, g.item) >= g.amount),
            ingredient_line(g, amount_of(inv, g.item)),
        ))[i]);
    }
    if holds_ingredients(ingredients, inv) {
        assert forall|i: int| 0 <= i < ingredients.len() implies (#[trigger] lines[i + 1]).0 == Tone::Success by {
            assert(ingredients[i].amount <= amount_of(inv, ingredients[i].item));
        }
    }
}

/// `s` with its spaces left out.
pub open spec fn without_spaces(s: Seq<char>) -> Seq<char>
    decreases s.len(),
{
    if s.len() == 0 {
        s
    } else if s.last() == ' ' {
        without_spaces(s.drop_last())
    } else {
        without_spaces(s.drop_last()).push(s.last())
    }
}

/// The inventory window names each item by its declared name: the name shown to the player
/// with its spaces left out; and no two items share a name there.
pub proof fn lemma_inventory_names(a: Item, b: Item)
    ensures
        item_debug_name(a) == without_spaces(item_name(a)),
        item_debug_name(a) == item_debug_name(b) ==> a == b,
{
    reveal_strlit("Wood");
    reveal_strlit("Fireglow");
    reveal_strlit("Lamp");
    reveal_strlit("CopperOre");
    reveal_strlit("CopperIngot");
    reveal_strlit("CopperSword");
    reveal_with_fuel(without_spaces, 13);
    assert(without_spaces(item_name(a)) =~= item_debug_name(a));
    if item_debug_name(a) == item_debug_name(b) && a != b {
        let na = item_debug_name(a);
        let nb = item_debug_name(b);
        assert(na.len() == nb.len());
        assert(na[0] == nb[0]);
        assert(na[na.len() - 1] == nb[nb.len() - 1]);
        assert(na[6] == nb[6]);
    }
}

} // verus!

//! Recipes, the client's game data, and what the crafting and recipe-choice
//! buttons do to it.
use vstd::prelude::*;
use crate::item::{Item, ItemStack};
use crate::inventory::{Inventory, amount_of, has_item, distinct_items, after_add, after_remove, report_of};

verus! {

/// What a recipe consumes and what it produces.
pub struct Recipe {
    pub ingredients: Vec<ItemStack>,
    pub outputs: Vec<ItemStack>,
}

/// The client's game data: the inventory and the state of the crafting windows.
pub struct Data {
    pub inventory: Inventory,
    pub current_recipe: Option<Recipe>,
    pub recipe_selections: Option<Vec<Recipe>>,
}

/// The sum of the amounts of the stacks of `s` that hold `item`.
pub open spec fn total(s: Seq<ItemStack>, item: Item) -> nat
    decreases s.len(),
{
    if s.len() == 0 {
        0
    } else {
        total(s.drop_last(), item) + if s.last().item == item { s.last().amount as nat } else { 0 }
    }
}

/// `a - b`, or 0 where `b` exceeds `a`.
pub open spec fn sat_sub(a: nat, b: nat) -> nat {
    if a >= b { (a - b) as nat } else { 0 }
}

/// Whether the stacks `s` hold every ingredient in at least its amount, each ingredient
/// checked on its own against the amount that `s` holds of its item.
pub open spec fn holds_ingredients(ingredients: Seq<ItemStack>, s: Seq<ItemStack>) -> bool {
    forall|i: int| 0 <= i < ingredients.len() ==> #[trigger] ingredients[i].amount <= amount_of(s, ingredients[i].item)
}

/// The amount of `item` after crafting: the ingredients taken away (never below 0), then the outputs added.
pub open spec fn crafted_amount(s: Seq<ItemStack>, ingredients: Seq<ItemStack>, outputs: Seq<ItemStack>, item: Item) -> nat {
    sat_sub(amount_of(s, item), total(ingredients, item)) + total(outputs, item)
}

/// `s` after each stack of `stacks` is taken away, in turn.
pub open spec fn removed_all(s: Seq<ItemStack>, stacks: Seq<ItemStack>) -> Seq<ItemStack>
    decreases stacks.len(),
{
    if stacks.len() == 0 {
        s
    } else {
        after_remove(removed_all(s, stacks.drop_last()), stacks.last())
    }
}

/// `s` after each stack of `stacks` is added, in turn.
pub open spec fn added_all(s: Seq<ItemStack>, stacks: Seq<ItemStack>) -> Seq<ItemStack>
    decreases stacks.len(),
{
    if stacks.len() == 0 {
        s
    } else {
        after_add(added_all(s, stacks.drop_last()), stacks.last())
    }
}

/// The stacks reported while each stack of `stacks` is taken away from `s`, in turn: the stack
/// of its item as it then stands, where there is one.
pub open spec fn removal_reports(s: Seq<ItemStack>, stacks: Seq<ItemStack>) -> Seq<ItemStack>
    decreases stacks.len(),
{
    if stacks.len() == 0 {
        Seq::empty()
    } else {
        let before = removed_all(s, stacks.drop_last());
        let item = stacks.last().item;
        removal_reports(s, stacks.drop_last()) + if has_item(before, item) {
            seq![report_of(after_remove(before, stacks.last()), item)]
        } else {
            Seq::empty()
        }
    }
}

/// The stacks reported while each stack of `stacks` is added to `s`, in turn: the stack of its
/// item as it then stands.
pub open spec fn addition_reports(s: Seq<ItemStack>, stacks: Seq<ItemStack>) -> Seq<ItemStack>
    decreases stacks.len(),
{
    if stacks.len() == 0 {
        Seq::empty()
    } else {
        let before = added_all(s, stacks.drop_last());
        addition_reports(s, stacks.drop_last()).push(report_of(after_add(before, stacks.last()), stacks.last().item))
    }
}

/// Whether no amount overflows while the outputs of a craft are added.
pub open spec fn craft_fits(s: Seq<ItemStack>, ingredients: Seq<ItemStack>, outputs: Seq<ItemStack>) -> bool {
    forall|item: Item| #[trigger] crafted_amount(s, ingredients, outputs, item) <= u32::MAX
}

proof fn lemma_total_take(s: Seq<ItemStack>, k: int, item: Item)
    requires
        0 <= k < s.len(),
    ensures
        total(s.take(k + 1), item) == total(s.take(k), item) + if s[k].item == item { s[k].amount as nat } else { 0 },
{
    assert(s.take(k + 1).drop_last() == s.take(k));
}

proof fn lemma_total_prefix_le(s: Seq<ItemStack>, k: int, item: Item)
    requires
        0 <= k <= s.len(),
    ensures
        total(s.take(k), item) <= total(s, item),
    decreases s.len() - k,
{
    if k < s.len() {
        lemma_total_take(s, k, item);
        lemma_total_prefix_le(s, k + 1, item);
    } else {
        assert(s.take(k) == s);
    }
}

impl Recipe {
    /// Whether `inventory` holds every ingredient in at least its amount.
    pub fn has_ingredients(&self, inventory: &Inventory) -> (r: bool)
        ensures
            r == holds_ingredients(self.ingredients@, inventory@),
    {
        let mut i: usize = 0;
        while i < self.ingredients.len()
            invariant
                i <= self.ingredients@.len(),
                forall|j: int| 0 <= j < i ==> #[trigger] self.ingredients@[j].amount <= amount_of(inventory@, self.ingredients@[j].item),
            decreases self.ingredients.len() - i,
        {
            let ingredient = self.ingredients[i];
            let held = match inventory.stack_of(ingredient.item) {
                Some(stack) => stack.amount,
                None => 0,
            };
            if !(ingredient.amount <= held) {
                return false;
            }
            i = i + 1;
        }
        true
    }

    /// A copy of the recipe.
    pub fn clone(&self) -> (r: Recipe)
        ensures
            r.ingredients@ == self.ingredients@,
            r.outputs@ == self.outputs@,
    {
        Recipe { ingredients: copy_stacks(&self.ingredients), outputs: copy_stacks(&self.outputs) }
    }
}

/// A copy of a list of stacks.
pub fn copy_stacks(v: &Vec<ItemStack>) -> (r: Vec<ItemStack>)
    ensures
        r@ == v@,
{
    let mut r: Vec<ItemStack> = Vec::new();
    let mut i: usize = 0;
    while i < v.len()
        invariant
            i <= v@.len(),
            r@ == v@.take(i as int),
        decreases v.len() - i,
    {
        r.push(v[i]);
        assert(v@.take(i + 1) == v@.take(i as int).push(v@[i as int]));
        i = i + 1;
    }
    assert(v@.take(v.len() as int) == v@);
    r
}

/// Takes every stack of `stacks` away from `inventory`, in turn.
fn remove_all(inventory: &mut Inventory, stacks: &Vec<ItemStack>)
    ensures
        final(inventory)@ == removed_all(old(inventory)@, stacks@),
        final(inventory).reports() == old(inventory).reports() + removal_reports(old(inventory)@, stacks@),
        forall|item: Item| #[trigger] amount_of(final(inventory)@, item) == sat_sub(amount_of(old(inventory)@, item), total(stacks@, item)),
{
    let ghost start = inventory@;
    let mut i: usize = 0;
    while i < stacks.len()
        invariant
            i <= stacks@.len(),
            forall|item: Item| #[trigger] amount_of(inventory@, item) == sat_sub(amount_of(start, item), total(stacks@.take(i as int), item)),
            inventory@ == removed_all(start, stacks@.take(i as int)),
            inventory.reports() == old(inventory).reports() + removal_reports(start, stacks@.take(i as int)),
            start == old(inventory)@,
        decreases stacks.len() - i,
    {
        let stack = stacks[i];
        let ghost before = inventory@;
        inventory.remove(stack);
        proof {
            assert(stacks@.take(i + 1).drop_last() == stacks@.take(i as int));
            assert forall|item: Item| #[trigger] amount_of(inventory@, item) == sat_sub(amount_of(start, item), total(stacks@.take(i + 1), item)) by {
                lemma_total_take(stacks@, i as int, item);
            }
        }
        i = i + 1;
    }
    assert(stacks@.take(stacks.len() as int) == stacks@);
}

/// Adds every stack of `stacks` to `inventory`, in turn.
fn add_all(inventory: &mut Inventory, stacks: &Vec<ItemStack>)
    requires
        forall|item: Item| #[trigger] amount_of(old(inventory)@, item) + total(stacks@, item) <= u32::MAX,
    ensures
        final(inventory)@ == added_all(old(inventory)@, stacks@),
        final(inventory).reports() == old(inventory).reports() + addition_reports(old(inventory)@, stacks@),
        forall|item: Item| #[trigger] amount_of(final(inventory)@, item) == amount_of(old(inventory)@, item) + total(stacks@, item),
{
    let ghost start = inventory@;
    let mut i: usize = 0;
    while i < stacks.len()
        invariant
            i <= stacks@.len(),
            forall|item: Item| #[trigger] amount_of(start, item) + total(stacks@, item) <= u32::MAX,
            forall|item: Item| #[trigger] amount_of(inventory@, item) == amount_of(start, item) + total(stacks@.take(i as int), item),
            inventory@ == added_all(start, stacks@.take(i as int)),
            inventory.reports() == old(inventory).reports() + addition_reports(start, stacks@.take(i as int)),
            start == old(inventory)@,
        decreases stacks.len() - i,
    {
        let stack = stacks[i];
        proof {
            lemma_total_take(stacks@, i as int, stack.item);
            lemma_total_prefix_le(stacks@, i + 1, stack.item);
        }
        inventory.add(stack);
        proof {
            assert(stacks@.take(i + 1).drop_last() == stacks@.take(i as int));
            assert forall|item: Item| #[trigger] amount_of(inventory@, item) == amount_of(start, item) + total(stacks@.take(i + 1), item) by {
                lemma_total_take(stacks@, i as int, item);
            }
        }
        i = i + 1;
    }
    assert(stacks@.take(stacks.len() as int) == stacks@);
}

/// Crafts `recipe` from `data`'s inventory, if it holds the ingredients: each ingredient is
/// taken away, each output added, and the crafting window closed.
pub fn craft(recipe: &Recipe, data: &mut Data)
    requires
        holds_ingredients(recipe.ingredients@, old(data).inventory@) ==> craft_fits(
            old(data).inventory@,
            recipe.ingredients@,
            recipe.outputs@,
        ),
    ensures
        holds_ingredients(recipe.ingredients@, old(data).inventory@) ==> {
            &&& final(data).inventory@ == added_all(removed_all(old(data).inventory@, recipe.ingredients@), recipe.outputs@)
            &&& final(data).inventory.reports() == old(data).inventory.reports()
                + removal_reports(old(data).inventory@, recipe.ingredients@)
                + addition_reports(removed_all(old(data).inventory@, recipe.ingredients@), recipe.outputs@)
            &&& forall|item: Item| #[trigger] amount_of(final(data).inventory@, item) == crafted_amount(
                old(data).inventory@,
                recipe.ingredients@,
                recipe.outputs@,
                item,
            )
            &&& final(data).current_recipe is None
            &&& final(data).recipe_selections == old(data).recipe_selections
        },
        !holds_ingredients(recipe.ingredients@, old(data).inventory@) ==> *final(data) == *old(data),
{
    if !recipe.has_ingredients(&data.inventory) {
        return;
    }
    let ghost start = data.inventory@;
    remove_all(&mut data.inventory, &recipe.ingredients);
    proof {
        assert forall|item: Item| #[trigger] amount_of(data.inventory@, item) + total(recipe.outputs@, item) <= u32::MAX by {
            assert(crafted_amount(start, recipe.ingredients@, recipe.outputs@, item) <= u32::MAX);
        }
    }
    add_all(&mut data.inventory, &recipe.outputs);
    data.current_recipe = None;
}

/// The "Craft" button of the crafting window.
pub struct CraftButtonHandler {
    pub recipe: Recipe,
}

/// The "Cancel" button of the crafting window.
pub struct CloseHandler;

/// A button of the recipe choice window, which picks its recipe.
pub struct RecipeSelectorHandler {
    pub recipe: Recipe,
}

impl CraftButtonHandler {
    /// Crafts the button's recipe (see [`craft`]).
    pub fn handle(&mut self, data: &mut Data)
        requires
            holds_ingredients(old(self).recipe.ingredients@, old(data).inventory@) ==> craft_fits(
                old(data).inventory@,
                old(self).recipe.ingredients@,
                old(self).recipe.outputs@,
            ),
        ensures
            final(self).recipe.ingredients@ == old(self).recipe.ingredients@,
            final(self).recipe.outputs@ == old(self).recipe.outputs@,
            holds_ingredients(old(self).recipe.ingredients@, old(data).inventory@) ==> {
                &&& final(data).inventory@ == added_all(
                    removed_all(old(data).inventory@, old(self).recipe.ingredients@),
                    old(self).recipe.outputs@,
                )
                &&& final(data).inventory.reports() == old(data).inventory.reports()
                    + removal_reports(old(data).inventory@, old(self).recipe.ingredients@)
                    + addition_reports(
                        removed_all(old(data).inventory@, old(self).recipe.ingredients@),
                        old(self).recipe.outputs@,
                    )
                &&& forall|item: Item| #[trigger] amount_of(final(data).inventory@, item) == crafted_amount(
                    old(data).inventory@,
                    old(self).recipe.ingredients@,
                    old(self).recipe.outputs@,
                    item,
                )
                &&& final(data).current_recipe is None
                &&& final(data).recipe_selections == old(data).recipe_selections
            },
            !holds_ingredients(old(self).recipe.ingredients@, old(data).inventory@) ==> *final(data) == *old(data),
    {
        craft(&self.recipe, data);
    }
}

impl CloseHandler {
    /// Closes the crafting window.
    pub fn handle(&mut self, data: &mut Data)
        ensures
            final(data).current_recipe is None,
            final(data).inventory == old(data).inventory,
            final(data).recipe_selections == old(data).recipe_selections,
    {
        data.current_recipe = None;
    }
}

impl RecipeSelectorHandler {
    /// Opens the crafting window on the button's recipe and closes the recipe choice.
    pub fn handle(&mut self, data: &mut Data)
        ensures
            final(data).current_recipe matches Some(r) && r.ingredients@ == old(self).recipe.ingredients@
                && r.outputs@ == old(self).recipe.outputs@,
            final(data).recipe_selections is None,
            final(data).inventory == old(data).inventory,
            final(self).recipe == old(self).recipe,
    {
        data.current_recipe = Some(self.recipe.clone());
        data.recipe_selections = None;
    }
}

proof fn lemma_total_distinct(s: Seq<ItemStack>, item: Item)
    requires
        distinct_items(s),
    ensures
        has_item(s, item) ==> total(s, item) == amount_of(s, item),
        !has_item(s, item) ==> total(s, item) == 0,
    decreases s.len(),
{
    if s.len() > 0 {
        let t = s.drop_last();
        assert(distinct_items(t)) by {
            assert forall|i: int, j: int| 0 <= i < t.len() && 0 <= j < t.len() && i != j implies #[trigger] t[i].item != #[trigger] t[j].item by {
                assert(t[i] == s[i] && t[j] == s[j]);
            }
        }
        lemma_total_distinct(t, item);
        let n = s.len() - 1;
        if s[n].item == item {
            crate::inventory::lemma_amount_at(s, item, n);
            assert(!has_item(t, item)) by {
                if has_item(t, item) {
                    let w = choose|k: int| 0 <= k < t.len() && #[trigger] t[k].item == item;
                    assert(s[w].item == item);
                }
            }
        } else if has_item(t, item) {
            let f = crate::inventory::first_index(t, item);
            crate::inventory::lemma_amount_at_first(t, item);
            assert(s[f] == t[f]);
            crate::inventory::lemma_amount_at(s, item, f);
            crate::inventory::lemma_amount_at(t, item, f);
        } else {
            assert(!has_item(s, item)) by {
                if has_item(s, item) {
                    let w = choose|k: int| 0 <= k < s.len() && #[trigger] s[k].item == item;
                    assert(w != n);
                    assert(t[w].item == item);
                }
            }
        }
    }
}

/// When the ingredients of a recipe name each item at most once and the inventory holds them,
/// crafting takes away exactly the ingredients and adds exactly the outputs: nothing is clipped at 0.
pub proof fn lemma_craft_is_exact(ingredients: Seq<ItemStack>, outputs: Seq<ItemStack>, inventory: Seq<ItemStack>, item: Item)
    requires
        distinct_items(ingredients),
        holds_ingredients(ingredients, inventory),
    ensures
        total(ingredients, item) <= amount_of(inventory, item),
        crafted_amount(inventory, ingredients, outputs, item) + total(ingredients, item) == amount_of(inventory, item)
            + total(outputs, item),
{
    lemma_total_distinct(ingredients, item);
    if has_item(ingredients, item) {
        let f = crate::inventory::first_index(ingredients, item);
        crate::inventory::lemma_amount_at_first(ingredients, item);
        assert(ingredients[f].amount <= amount_of(inventory, ingredients[f].item));
    }
}

} // verus!

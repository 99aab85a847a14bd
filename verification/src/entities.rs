//! What the things of the world do when the player interacts with them.
use vstd::prelude::*;
use crate::item::{Item, ItemStack};
use crate::inventory::{amount_of, after_add, report_of};
use crate::data::{Data, Recipe};

verus! {

/// Something with a name shown to the player.
pub trait Named {
    /// The name.
    spec fn name(&self) -> Seq<char>;

    /// The name.
    fn get_name(&self) -> (r: String)
        ensures
            r@ == self.name(),
    ;
}

/// Something the player can interact with.
pub trait Interactable: Named {
    /// Whether an interaction with `data` is defined (no amount overflows).
    spec fn can_interact(&self, data: &Data) -> bool;

    /// Interacts with the thing.
    fn interact(&mut self, data: &mut Data)
        requires
            old(self).can_interact(&*old(data)),
    ;

    /// Whether the thing can be interacted with now.
    fn active(&self) -> bool;
}

/// A stack of `amount` of `item`.
pub open spec fn stack(item: Item, amount: u32) -> ItemStack {
    ItemStack { item, amount }
}

/// The recipe a furnace offers: three copper ore into one copper ingot.
pub open spec fn smelting() -> (Seq<ItemStack>, Seq<ItemStack>) {
    (seq![stack(Item::CopperOre, 3)], seq![stack(Item::CopperIngot, 1)])
}

/// The recipes a crafting bench offers: a lamp, and a copper sword.
pub open spec fn bench_recipes() -> Seq<(Seq<ItemStack>, Seq<ItemStack>)> {
    seq![
        (seq![stack(Item::Wood, 3), stack(Item::Fireglow, 2)], seq![stack(Item::Lamp, 1)]),
        (seq![stack(Item::Wood, 2), stack(Item::CopperIngot, 2)], seq![stack(Item::CopperSword, 1)]),
    ]
}

/// A tree, which yields one piece of wood once.
pub struct Tree {
    pub gathered: bool,
}

/// A copper ore deposit, which yields one copper ore once.
pub struct CopperOre {
    pub gathered: bool,
}

/// A firefly, which yields one fireglow once, while it glows.
pub struct Firefly {
    pub gathered: bool,
    /// Whether its light is on.
    pub glowing: bool,
}

/// A furnace, which opens the smelting recipe.
pub struct Furnace;

/// A crafting bench, which offers its recipes to choose from.
pub struct CraftingBench;

/// Adds one of `item` to the inventory.
fn gather_one(data: &mut Data, item: Item)
    requires
        amount_of(old(data).inventory@, item) < u32::MAX,
    ensures
        final(data).inventory@ == after_add(old(data).inventory@, ItemStack { item, amount: 1 }),
        final(data).inventory.reports() == old(data).inventory.reports().push(report_of(final(data).inventory@, item)),
        amount_of(final(data).inventory@, item) == amount_of(old(data).inventory@, item) + 1,
        forall|other: Item| other != item ==> #[trigger] amount_of(final(data).inventory@, other) == amount_of(old(data).inventory@, other),
        final(data).current_recipe == old(data).current_recipe,
        final(data).recipe_selections == old(data).recipe_selections,
{
    data.inventory.add(ItemStack { item, amount: 1 });
}

impl Named for Tree {
    open spec fn name(&self) -> Seq<char> {
        "Tree"@
    }

    fn get_name(&self) -> (r: String) {
        "Tree".to_owned()
    }
}

impl Interactable for Tree {
    open spec fn can_interact(&self, data: &Data) -> bool {
        amount_of(data.inventory@, Item::Wood) < u32::MAX
    }

    /// Adds one wood to the inventory; the tree is gathered.
    fn interact(&mut self, data: &mut Data)
        ensures
            final(data).inventory@ == after_add(old(data).inventory@, ItemStack { item: Item::Wood, amount: 1 }),
            final(data).inventory.reports() == old(data).inventory.reports().push(
                report_of(final(data).inventory@, Item::Wood),
            ),
            amount_of(final(data).inventory@, Item::Wood) == amount_of(old(data).inventory@, Item::Wood) + 1,
            forall|other: Item| other != Item::Wood ==> #[trigger] amount_of(final(data).inventory@, other) == amount_of(old(data).inventory@, other),
            final(data).current_recipe == old(data).current_recipe,
            final(data).recipe_selections == old(data).recipe_selections,
            final(self).gathered,
    {
        gather_one(data, Item::Wood);
        self.gathered = true;
    }

    /// Whether it has not been gathered yet.
    fn active(&self) -> (r: bool)
        ensures
            r == !self.gathered,
    {
        !self.gathered
    }
}

impl Named for CopperOre {
    open spec fn name(&self) -> Seq<char> {
        "Copper Ore"@
    }

    fn get_name(&self) -> (r: String) {
        "Copper Ore".to_owned()
    }
}

impl Interactable for CopperOre {
    open spec fn can_interact(&self, data: &Data) -> bool {
        amount_of(data.inventory@, Item::CopperOre) < u32::MAX
    }

    /// Adds one copper ore to the inventory; the deposit is gathered.
    fn interact(&mut self, data: &mut Data)
        ensures
            final(data).inventory@ == after_add(old(data).inventory@, ItemStack { item: Item::CopperOre, amount: 1 }),
            final(data).inventory.reports() == old(data).inventory.reports().push(
                report_of(final(data).inventory@, Item::CopperOre),
            ),
            amount_of(final(data).inventory@, Item::CopperOre) == amount_of(old(data).inventory@, Item::CopperOre) + 1,
            forall|other: Item| other != Item::CopperOre ==> #[trigger] amount_of(final(data).inventory@, other) == amount_of(old(data).inventory@, other),
            final(data).current_recipe == old(data).current_recipe,
            final(data).recipe_selections == old(data).recipe_selections,
            final(self).gathered,
    {
        gather_one(data, Item::CopperOre);
        self.gathered = true;
    }

    /// Whether it has not been gathered yet.
    fn active(&self) -> (r: bool)
        ensures
            r == !self.gathered,
    {
        !self.gathered
    }
}

impl Named for Firefly {
    open spec fn name(&self) -> Seq<char> {
        "Sunset Firefly"@
    }

    fn get_name(&self) -> (r: String) {
        "Sunset Firefly".to_owned()
    }
}

impl Interactable for Firefly {
    open spec fn can_interact(&self, data: &Data) -> bool {
        amount_of(data.inventory@, Item::Fireglow) < u32::MAX
    }

    /// Adds one fireglow to the inventory; the firefly is gathered.
    fn interact(&mut self, data: &mut Data)
        ensures
            final(data).inventory@ == after_add(old(data).inventory@, ItemStack { item: Item::Fireglow, amount: 1 }),
            final(data).inventory.reports() == old(data).inventory.reports().push(
                report_of(final(data).inventory@, Item::Fireglow),
            ),
            amount_of(final(data).inventory@, Item::Fireglow) == amount_of(old(data).inventory@, Item::Fireglow) + 1,
            forall|other: Item| other != Item::Fireglow ==> #[trigger] amount_of(final(data).inventory@, other) == amount_of(old(data).inventory@, other),
            final(data).current_recipe == old(data).current_recipe,
            final(data).recipe_selections == old(data).recipe_selections,
            final(self).gathered,
            final(self).glowing == old(self).glowing,
    {
        gather_one(data, Item::Fireglow);
        self.gathered = true;
    }

    /// Whether it glows and has not been gathered yet.
    fn active(&self) -> (r: bool)
        ensures
            r == (!self.gathered && self.glowing),
    {
        !self.gathered && self.glowing
    }
}

/// A recipe built from its ingredients and outputs.
fn recipe(ingredients: Vec<ItemStack>, outputs: Vec<ItemStack>) -> (r: Recipe)
    ensures
        r.ingredients@ == ingredients@,
        r.outputs@ == outputs@,
{
    Recipe { ingredients, outputs }
}

impl Named for Furnace {
    open spec fn name(&self) -> Seq<char> {
        "Furnace"@
    }

    fn get_name(&self) -> (r: String) {
        "Furnace".to_owned()
    }
}

impl Interactable for Furnace {
    open spec fn can_interact(&self, data: &Data) -> bool {
        true
    }

    /// Opens the crafting window on the smelting recipe.
    fn interact(&mut self, data: &mut Data)
        ensures
            final(data).current_recipe matches Some(r) && r.ingredients@ == smelting().0 && r.outputs@ == smelting().1,
            final(data).inventory == old(data).inventory,
            final(data).recipe_selections == old(data).recipe_selections,
    {
        let r = recipe(vec![ItemStack { item: Item::CopperOre, amount: 3 }], vec![ItemStack { item: Item::CopperIngot, amount: 1 }]);
        data.current_recipe = Some(r);
    }

    /// Always.
    fn active(&self) -> (r: bool)
        ensures
            r,
    {
        true
    }
}

impl Named for CraftingBench {
    open spec fn name(&self) -> Seq<char> {
        "Crafting Bench"@
    }

    fn get_name(&self) -> (r: String) {
        "Crafting Bench".to_owned()
    }
}

impl Interactable for CraftingBench {
    open spec fn can_interact(&self, data: &Data) -> bool {
        true
    }

    /// Opens the recipe choice on the bench's recipes.
    fn interact(&mut self, data: &mut Data)
        ensures
            final(data).recipe_selections matches Some(rs) && rs@.len() == bench_recipes().len()
                && forall|i: int| 0 <= i < rs@.len() ==> (#[trigger] rs@[i]).ingredients@ == bench_recipes()[i].0
                    && rs@[i].outputs@ == bench_recipes()[i].1,
            final(data).inventory == old(data).inventory,
            final(data).current_recipe == old(data).current_recipe,
    {
        let lamp = recipe(
            vec![ItemStack { item: Item::Wood, amount: 3 }, ItemStack { item: Item::Fireglow, amount: 2 }],
            vec![ItemStack { item: Item::Lamp, amount: 1 }],
        );
        let sword = recipe(
            vec![ItemStack { item: Item::Wood, amount: 2 }, ItemStack { item: Item::CopperIngot, amount: 2 }],
            vec![ItemStack { item: Item::CopperSword, amount: 1 }],
        );
        data.recipe_selections = Some(vec![lamp, sword]);
    }

    /// Always.
    fn active(&self) -> (r: bool)
        ensures
            r,
    {
        true
    }
}

} // verus!

//! A character's inventory: a list of item stacks, at most one per item.
use vstd::prelude::*;
use crate::item::{Item, ItemStack};
use crate::net::server::{ModifyInventory, Packet};

verus! {

/// Whether some stack of `s` holds `item`.
pub open spec fn has_item(s: Seq<ItemStack>, item: Item) -> bool {
    exists|i: int| 0 <= i < s.len() && #[trigger] s[i].item == item
}

/// Whether `i` is the position of the first stack of `s` that holds `item`.
pub open spec fn is_first_index(s: Seq<ItemStack>, item: Item, i: int) -> bool {
    &&& 0 <= i < s.len()
    &&& s[i].item == item
    &&& forall|j: int| 0 <= j < i ==> #[trigger] s[j].item != item
}

/// The position of the first stack of `s` that holds `item` (meaningful where `has_item`).
pub open spec fn first_index(s: Seq<ItemStack>, item: Item) -> int {
    choose|i: int| is_first_index(s, item, i)
}

/// The first stack of `s` that holds `item`, if any.
pub open spec fn find_stack(s: Seq<ItemStack>, item: Item) -> Option<ItemStack> {
    if has_item(s, item) {
        Some(s[first_index(s, item)])
    } else {
        None
    }
}

/// The amount of `item` that `s` holds, as the first matching stack tells it (0 without one).
pub open spec fn amount_of(s: Seq<ItemStack>, item: Item) -> nat {
    match find_stack(s, item) {
        Some(stack) => stack.amount as nat,
        None => 0,
    }
}

/// No two stacks of `s` hold the same item.
pub open spec fn distinct_items(s: Seq<ItemStack>) -> bool {
    forall|i: int, j: int|
        0 <= i < s.len() && 0 <= j < s.len() && i != j ==> #[trigger] s[i].item != #[trigger] s[j].item
}

proof fn lemma_first_exists(s: Seq<ItemStack>, item: Item)
    requires
        has_item(s, item),
    ensures
        exists|i: int| is_first_index(s, item, i),
    decreases s.len(),
{
    let t = s.drop_last();
    if has_item(t, item) {
        lemma_first_exists(t, item);
        let i = choose|i: int| is_first_index(t, item, i);
        assert forall|j: int| 0 <= j < i implies #[trigger] s[j].item != item by {
            assert(t[j] == s[j]);
        }
        assert(is_first_index(s, item, i));
    } else {
        let w = choose|k: int| 0 <= k < s.len() && #[trigger] s[k].item == item;
        if w < s.len() - 1 {
            assert(t[w].item == item);
        }
        assert forall|j: int| 0 <= j < s.len() - 1 implies #[trigger] s[j].item != item by {
            assert(t[j] == s[j]);
        }
        assert(is_first_index(s, item, s.len() - 1));
    }
}

/// Where `item` occurs in `s`, the first index exists and is unique.
pub proof fn lemma_first_index(s: Seq<ItemStack>, item: Item)
    requires
        has_item(s, item),
    ensures
        is_first_index(s, item, first_index(s, item)),
        forall|k: int| is_first_index(s, item, k) ==> k == first_index(s, item),
{
    lemma_first_exists(s, item);
    assert(exists|i: int| is_first_index(s, item, i));
    let f = first_index(s, item);
    assert forall|k2: int| is_first_index(s, item, k2) implies k2 == f by {
        if k2 < f {
            assert(s[k2].item != item);
        } else if f < k2 {
            assert(s[f].item != item);
        }
    }
}

/// The amount a sequence of distinct stacks holds of `item` is that of the stack at `i`, if it holds it.
pub proof fn lemma_amount_at(s: Seq<ItemStack>, item: Item, i: int)
    requires
        distinct_items(s),
        0 <= i < s.len(),
        s[i].item == item,
    ensures
        has_item(s, item),
        first_index(s, item) == i,
        amount_of(s, item) == s[i].amount,
{
    assert(is_first_index(s, item, i));
    lemma_first_index(s, item);
}

/// The amount held of an item that `s` holds is that of its first stack.
pub proof fn lemma_amount_at_first(s: Seq<ItemStack>, item: Item)
    requires
        has_item(s, item),
    ensures
        is_first_index(s, item, first_index(s, item)),
        amount_of(s, item) == s[first_index(s, item)].amount,
{
    lemma_first_index(s, item);
}

/// Changing the stack at `i` to a stack of the same item leaves the amounts of other items as they were.
pub proof fn lemma_update_other(s: Seq<ItemStack>, i: int, stack: ItemStack, other: Item)
    requires
        distinct_items(s),
        0 <= i < s.len(),
        s[i].item == stack.item,
        other != stack.item,
    ensures
        distinct_items(s.update(i, stack)),
        amount_of(s.update(i, stack), other) == amount_of(s, other),
{
    let t = s.update(i, stack);
    if has_item(s, other) {
        let f = first_index(s, other);
        lemma_first_index(s, other);
        lemma_amount_at(t, other, f);
    } else {
        assert(!has_item(t, other));
    }
}

/// Appending a stack of an item that `s` lacks leaves the amounts of other items as they were.
pub proof fn lemma_push_other(s: Seq<ItemStack>, stack: ItemStack, other: Item)
    requires
        distinct_items(s),
        !has_item(s, stack.item),
        other != stack.item,
    ensures
        distinct_items(s.push(stack)),
        amount_of(s.push(stack), other) == amount_of(s, other),
{
    let t = s.push(stack);
    assert forall|i: int, j: int|
        0 <= i < t.len() && 0 <= j < t.len() && i != j implies #[trigger] t[i].item != #[trigger] t[j].item by {
        if i == s.len() {
            assert(t[j] == s[j]);
        } else if j == s.len() {
            assert(t[i] == s[i]);
        }
    }
    if has_item(s, other) {
        let f = first_index(s, other);
        lemma_first_index(s, other);
        lemma_amount_at(t, other, f);
    } else {
        assert(!has_item(t, other)) by {
            if has_item(t, other) {
                let w = choose|k: int| 0 <= k < t.len() && #[trigger] t[k].item == other;
                assert(w < s.len());
                assert(s[w].item == other);
            }
        }
    }
}

/// `s` with `stack` as the stack of its item: replacing the existing stack in place, or appended.
pub open spec fn with_stack(s: Seq<ItemStack>, stack: ItemStack) -> Seq<ItemStack> {
    if has_item(s, stack.item) {
        s.update(first_index(s, stack.item), stack)
    } else {
        s.push(stack)
    }
}

/// `s` after `stack.amount` of its item is added: the stack of the item grows in place, or
/// `stack` is appended where there is none.
pub open spec fn after_add(s: Seq<ItemStack>, stack: ItemStack) -> Seq<ItemStack> {
    if has_item(s, stack.item) {
        s.update(
            first_index(s, stack.item),
            ItemStack { item: stack.item, amount: (amount_of(s, stack.item) + stack.amount) as u32 },
        )
    } else {
        s.push(stack)
    }
}

/// `s` after `stack.amount` of its item is taken away: the stack of the item shrinks in place,
/// down to no less than 0; without such a stack, `s` is left as it is.
pub open spec fn after_remove(s: Seq<ItemStack>, stack: ItemStack) -> Seq<ItemStack> {
    if has_item(s, stack.item) {
        s.update(
            first_index(s, stack.item),
            ItemStack {
                item: stack.item,
                amount: if amount_of(s, stack.item) >= stack.amount {
                    (amount_of(s, stack.item) - stack.amount) as u32
                } else {
                    0
                },
            },
        )
    } else {
        s
    }
}

/// After a stack is set, looking its item up gives back that stack.
pub proof fn lemma_set_then_find(s: Seq<ItemStack>, stack: ItemStack)
    requires
        distinct_items(s),
    ensures
        distinct_items(with_stack(s, stack)),
        find_stack(with_stack(s, stack), stack.item) == Some(stack),
{
    let other = if stack.item == Item::Wood { Item::Lamp } else { Item::Wood };
    if has_item(s, stack.item) {
        let f = first_index(s, stack.item);
        lemma_first_index(s, stack.item);
        lemma_update_other(s, f, stack, other);
        lemma_amount_at(with_stack(s, stack), stack.item, f);
    } else {
        lemma_push_other(s, stack, other);
        lemma_amount_at(with_stack(s, stack), stack.item, s.len() as int);
    }
}

/// Setting a stack and then another of the same item is the same as setting the second alone.
pub proof fn lemma_set_twice(s: Seq<ItemStack>, first: ItemStack, second: ItemStack)
    requires
        distinct_items(s),
        first.item == second.item,
    ensures
        with_stack(with_stack(s, first), second) == with_stack(s, second),
{
    let item = first.item;
    let t = with_stack(s, first);
    lemma_set_then_find(s, first);
    if has_item(s, item) {
        let f = first_index(s, item);
        lemma_first_index(s, item);
        lemma_amount_at(t, item, f);
        assert(t.update(f, second) =~= s.update(f, second));
    } else {
        lemma_amount_at(t, item, s.len() as int);
        assert(t.update(s.len() as int, second) =~= s.push(second));
    }
}

/// Taking away a stack just added gives back, for every item, the amount held before.
pub proof fn lemma_remove_undoes_add(s: Seq<ItemStack>, stack: ItemStack, item: Item)
    requires
        distinct_items(s),
        amount_of(s, stack.item) + stack.amount <= u32::MAX,
    ensures
        amount_of(after_remove(after_add(s, stack), stack), item) == amount_of(s, item),
        has_item(s, stack.item) ==> after_remove(after_add(s, stack), stack) == s,
{
    let k = stack.item;
    let dummy = if k == Item::Wood { Item::Lamp } else { Item::Wood };
    let a = after_add(s, stack);
    if has_item(s, k) {
        let f = first_index(s, k);
        lemma_first_index(s, k);
        let grown = ItemStack { item: k, amount: (amount_of(s, k) + stack.amount) as u32 };
        lemma_update_other(s, f, grown, dummy);
        lemma_amount_at(a, k, f);
        assert(a.update(f, ItemStack { item: k, amount: amount_of(s, k) as u32 }) =~= s);
    } else {
        lemma_push_other(s, stack, dummy);
        lemma_amount_at(a, k, s.len() as int);
        let emptied = ItemStack { item: k, amount: 0 };
        assert(after_remove(a, stack) =~= s.push(emptied));
        lemma_push_other(s, emptied, dummy);
        lemma_amount_at(s.push(emptied), k, s.len() as int);
        if item != k {
            lemma_push_other(s, emptied, item);
        }
    }
}

/// The stack of `item` that `s` holds, as it is reported to the server.
pub open spec fn report_of(s: Seq<ItemStack>, item: Item) -> ItemStack {
    ItemStack { item, amount: amount_of(s, item) as u32 }
}

/// The player's inventory, with the stacks it has changed that are still to be reported to
/// the server.
pub struct Inventory {
    inventory: Vec<ItemStack>,
    outbox: Vec<ItemStack>,
}

impl View for Inventory {
    type V = Seq<ItemStack>;

    closed spec fn view(&self) -> Seq<ItemStack> {
        self.inventory@
    }
}

impl Inventory {
    /// The stacks changed and not yet reported, oldest first: after each change, the changed
    /// stack as it then stands.
    pub closed spec fn reports(&self) -> Seq<ItemStack> {
        self.outbox@
    }

    /// The stacks of an inventory never share an item.
    #[verifier::type_invariant]
    pub open spec fn inv(&self) -> bool {
        distinct_items(self@)
    }

    /// An empty inventory.
    pub fn new() -> (r: Inventory)
        ensures
            r@ == Seq::<ItemStack>::empty(),
            r.reports() == Seq::<ItemStack>::empty(),
    {
        Inventory { inventory: Vec::new(), outbox: Vec::new() }
    }

    /// Notes `stack` as to be reported.
    fn report(&mut self, stack: ItemStack)
        ensures
            final(self)@ == old(self)@,
            final(self).reports() == old(self).reports().push(stack),
    {
        proof {
            use_type_invariant(&*self);
        }
        let mut outbox: Vec<ItemStack> = Vec::new();
        std::mem::swap(&mut outbox, &mut self.outbox);
        outbox.push(stack);
        self.outbox = outbox;
    }

    /// Hands out the packets that report the changed stacks to the server, oldest first, and
    /// forgets them.
    pub fn take_updates(&mut self) -> (r: Vec<Packet>)
        ensures
            final(self)@ == old(self)@,
            final(self).reports() == Seq::<ItemStack>::empty(),
            r@.len() == old(self).reports().len(),
            forall|i: int| 0 <= i < r@.len() ==> #[trigger] r@[i] == Packet::ModifyInventory(
                ModifyInventory { stack: old(self).reports()[i] },
            ),
    {
        proof {
            use_type_invariant(&*self);
        }
        let mut outbox: Vec<ItemStack> = Vec::new();
        std::mem::swap(&mut outbox, &mut self.outbox);
        let mut r: Vec<Packet> = Vec::new();
        let mut i: usize = 0;
        while i < outbox.len()
            invariant
                i <= outbox@.len(),
                r@.len() == i,
                forall|j: int| 0 <= j < i ==> #[trigger] r@[j] == Packet::ModifyInventory(ModifyInventory { stack: outbox@[j] }),
            decreases outbox.len() - i,
        {
            r.push(Packet::ModifyInventory(ModifyInventory { stack: outbox[i] }));
            i = i + 1;
        }
        r
    }

    /// The position of the stack of `item`, if any.
    fn find(&self, item: Item) -> (r: Option<usize>)
        ensures
            match r {
                Some(i) => i < self@.len() && self@[i as int].item == item && first_index(self@, item) == i
                    && has_item(self@, item),
                None => !has_item(self@, item),
            },
    {
        proof {
            use_type_invariant(self);
        }
        let mut i: usize = 0;
        while i < self.inventory.len()
            invariant
                i <= self.inventory@.len(),
                distinct_items(self.inventory@),
                forall|j: int| 0 <= j < i ==> #[trigger] self.inventory@[j].item != item,
            decreases self.inventory.len() - i,
        {
            if self.inventory[i].item == item {
                proof {
                    lemma_amount_at(self.inventory@, item, i as int);
                }
                return Some(i);
            }
            i = i + 1;
        }
        None
    }

    /// The stack of `item`, if the inventory holds one.
    pub fn stack_of(&self, item: Item) -> (r: Option<ItemStack>)
        ensures
            r == find_stack(self@, item),
    {
        match self.find(item) {
            Some(i) => Some(self.inventory[i]),
            None => None,
        }
    }

    /// Makes `stack` the inventory's stack of its item: it replaces the existing
    /// stack in place, or is appended where there is none.
    fn put(&mut self, stack: ItemStack)
        ensures
            has_item(old(self)@, stack.item) ==> final(self)@ == old(self)@.update(first_index(old(self)@, stack.item), stack),
            !has_item(old(self)@, stack.item) ==> final(self)@ == old(self)@.push(stack),
            has_item(final(self)@, stack.item),
            amount_of(final(self)@, stack.item) == stack.amount,
            forall|other: Item| other != stack.item ==> #[trigger] amount_of(final(self)@, other) == amount_of(old(self)@, other),
            final(self).reports() == old(self).reports(),
    {
        proof {
            use_type_invariant(&*self);
        }
        let found = self.find(stack.item);
        let ghost before = self.inventory@;
        let ghost some_other = if stack.item == Item::Wood { Item::Lamp } else { Item::Wood };
        let mut items: Vec<ItemStack> = Vec::new();
        std::mem::swap(&mut items, &mut self.inventory);
        match found {
            Some(i) => {
                proof {
                    assert forall|other: Item| other != stack.item implies #[trigger] amount_of(before.update(i as int, stack), other) == amount_of(before, other) by {
                        lemma_update_other(before, i as int, stack, other);
                    }
                    lemma_update_other(before, i as int, stack, some_other);
                    lemma_amount_at(before.update(i as int, stack), stack.item, i as int);
                }
                items.set(i, stack);
            },
            None => {
                proof {
                    assert forall|other: Item| other != stack.item implies #[trigger] amount_of(before.push(stack), other) == amount_of(before, other) by {
                        lemma_push_other(before, stack, other);
                    }
                    lemma_push_other(before, stack, some_other);
                    lemma_amount_at(before.push(stack), stack.item, before.len() as int);
                }
                items.push(stack);
            },
        }
        self.inventory = items;
    }

    /// Adds `stack.amount` to the stack of the same item, or appends `stack` where there is none;
    /// the stack as it then stands is noted for report.
    pub fn add(&mut self, stack: ItemStack)
        requires
            amount_of(old(self)@, stack.item) + stack.amount <= u32::MAX,
        ensures
            has_item(old(self)@, stack.item) ==> final(self)@ == old(self)@.update(
                first_index(old(self)@, stack.item),
                ItemStack { item: stack.item, amount: (amount_of(old(self)@, stack.item) + stack.amount) as u32 },
            ),
            !has_item(old(self)@, stack.item) ==> final(self)@ == old(self)@.push(stack),
            final(self)@ == after_add(old(self)@, stack),
            amount_of(final(self)@, stack.item) == amount_of(old(self)@, stack.item) + stack.amount,
            forall|other: Item| other != stack.item ==> #[trigger] amount_of(final(self)@, other) == amount_of(old(self)@, other),
            final(self).reports() == old(self).reports().push(report_of(final(self)@, stack.item)),
    {
        let current = match self.stack_of(stack.item) {
            Some(existing) => existing.amount,
            None => 0,
        };
        let grown = ItemStack { item: stack.item, amount: current + stack.amount };
        self.put(grown);
        self.report(grown);
    }

    /// Makes `stack.amount` the amount of the stack of the same item, or appends `stack` where there
    /// is none; `stack` is noted for report.
    pub fn set(&mut self, stack: ItemStack)
        ensures
            final(self)@ == with_stack(old(self)@, stack),
            amount_of(final(self)@, stack.item) == stack.amount,
            forall|other: Item| other != stack.item ==> #[trigger] amount_of(final(self)@, other) == amount_of(old(self)@, other),
            final(self).reports() == old(self).reports().push(stack),
    {
        self.put(stack);
        self.report(stack);
    }

    /// Takes `stack.amount` away from the stack of the same item, down to no less than 0, and notes
    /// the stack as it then stands for report;
    /// the stack stays, and an inventory without such a stack is left as it is.
    pub fn remove(&mut self, stack: ItemStack)
        ensures
            has_item(old(self)@, stack.item) ==> final(self)@ == old(self)@.update(
                first_index(old(self)@, stack.item),
                ItemStack {
                    item: stack.item,
                    amount: if amount_of(old(self)@, stack.item) >= stack.amount {
                        (amount_of(old(self)@, stack.item) - stack.amount) as u32
                    } else {
                        0
                    },
                },
            ),
            !has_item(old(self)@, stack.item) ==> final(self)@ == old(self)@,
            final(self)@ == after_remove(old(self)@, stack),
            amount_of(final(self)@, stack.item) == if amount_of(old(self)@, stack.item) >= stack.amount {
                (amount_of(old(self)@, stack.item) - stack.amount) as nat
            } else {
                0
            },
            forall|other: Item| other != stack.item ==> #[trigger] amount_of(final(self)@, other) == amount_of(old(self)@, other),
            has_item(old(self)@, stack.item) ==> final(self).reports() == old(self).reports().push(report_of(final(self)@, stack.item)),
            !has_item(old(self)@, stack.item) ==> final(self).reports() == old(self).reports(),
    {
        if let Some(existing) = self.stack_of(stack.item) {
            let left = if existing.amount >= stack.amount { existing.amount - stack.amount } else { 0 };
            let shrunk = ItemStack { item: stack.item, amount: left };
            self.put(shrunk);
            self.report(shrunk);
        }
    }

    /// The stacks, in the order in which their items first arrived.
    pub fn get_items(&self) -> (r: &[ItemStack])
        ensures
            r@ == self@,
    {
        self.inventory.as_slice()
    }
}

} // verus!

//! Items that a character can hold, and stacks of them.
use vstd::prelude::*;
use crate::text::{decimal, push_decimal, push_char};

verus! {

/// A kind of item.
#[derive(Clone, Copy, Debug, PartialEq, Eq, Structural)]
pub enum Item {
    Wood,
    Fireglow,
    Lamp,
    CopperOre,
    CopperIngot,
    CopperSword,
}

/// An amount of one kind of item.
#[derive(Clone, Copy, Debug, PartialEq, Eq, Structural)]
pub struct ItemStack {
    pub item: Item,
    pub amount: u32,
}

/// The number under which an item is stored: its position in the declaration.
pub open spec fn item_id(item: Item) -> int {
    match item {
        Item::Wood => 0,
        Item::Fireglow => 1,
        Item::Lamp => 2,
        Item::CopperOre => 3,
        Item::CopperIngot => 4,
        Item::CopperSword => 5,
    }
}

/// The item stored under `n`, if any.
pub open spec fn item_from_id(n: int) -> Option<Item> {
    if n == 0 {
        Some(Item::Wood)
    } else if n == 1 {
        Some(Item::Fireglow)
    } else if n == 2 {
        Some(Item::Lamp)
    } else if n == 3 {
        Some(Item::CopperOre)
    } else if n == 4 {
        Some(Item::CopperIngot)
    } else if n == 5 {
        Some(Item::CopperSword)
    } else {
        None
    }
}

/// The name under which an item is shown to the player.
pub open spec fn item_name(item: Item) -> Seq<char> {
    match item {
        Item::Wood => seq!['W', 'o', 'o', 'd'],
        Item::Fireglow => seq!['F', 'i', 'r', 'e', 'g', 'l', 'o', 'w'],
        Item::Lamp => seq!['L', 'a', 'm', 'p'],
        Item::CopperOre => seq!['C', 'o', 'p', 'p', 'e', 'r', ' ', 'O', 'r', 'e'],
        Item::CopperIngot => seq!['C', 'o', 'p', 'p', 'e', 'r', ' ', 'I', 'n', 'g', 'o', 't'],
        Item::CopperSword => seq!['C', 'o', 'p', 'p', 'e', 'r', ' ', 'S', 'w', 'o', 'r', 'd'],
    }
}

/// How a stack is shown to the player: the item's name, a space, `x` and the amount.
pub open spec fn stack_text(stack: ItemStack) -> Seq<char> {
    item_name(stack.item) + seq![' ', 'x'] + decimal(stack.amount as nat)
}

fn push_str_chars(s: &mut String, chars: &[char])
    ensures
        final(s)@ == old(s)@ + chars@,
{
    let mut i: usize = 0;
    while i < chars.len()
        invariant
            i <= chars.len(),
            s@ == old(s)@ + chars@.subrange(0, i as int),
        decreases chars.len() - i,
    {
        push_char(s, chars[i]);
        assert(chars@.subrange(0, i + 1) == chars@.subrange(0, i as int).push(chars@[i as int]));
        i = i + 1;
    }
    assert(chars@.subrange(0, chars.len() as int) == chars@);
}

impl Item {
    /// The item stored under `n`, or `None` where no item has that number.
    pub fn from_i64(n: i64) -> (r: Option<Item>)
        ensures
            r == item_from_id(n as int),
    {
        match n {
            0 => Some(Item::Wood),
            1 => Some(Item::Fireglow),
            2 => Some(Item::Lamp),
            3 => Some(Item::CopperOre),
            4 => Some(Item::CopperIngot),
            5 => Some(Item::CopperSword),
            _ => None,
        }
    }

    /// The number under which the item is stored; always `Some`.
    pub fn to_i64(&self) -> (r: Option<i64>)
        ensures
            r == Some(item_id(*self) as i64),
    {
        match self {
            Item::Wood => Some(0),
            Item::Fireglow => Some(1),
            Item::Lamp => Some(2),
            Item::CopperOre => Some(3),
            Item::CopperIngot => Some(4),
            Item::CopperSword => Some(5),
        }
    }

    /// Appends the item's name to `s`.
    pub fn push_name(&self, s: &mut String)
        ensures
            final(s)@ == old(s)@ + item_name(*self),
    {
        match self {
            Item::Wood => push_str_chars(s, &['W', 'o', 'o', 'd']),
            Item::Fireglow => push_str_chars(s, &['F', 'i', 'r', 'e', 'g', 'l', 'o', 'w']),
            Item::Lamp => push_str_chars(s, &['L', 'a', 'm', 'p']),
            Item::CopperOre => push_str_chars(s, &['C', 'o', 'p', 'p', 'e', 'r', ' ', 'O', 'r', 'e']),
            Item::CopperIngot => push_str_chars(s, &['C', 'o', 'p', 'p', 'e', 'r', ' ', 'I', 'n', 'g', 'o', 't']),
            Item::CopperSword => push_str_chars(s, &['C', 'o', 'p', 'p', 'e', 'r', ' ', 'S', 'w', 'o', 'r', 'd']),
        }
    }

    /// The item's name, as shown to the player.
    pub fn to_string(&self) -> (r: String)
        ensures
            r@ == item_name(*self),
    {
        let mut s = String::new();
        self.push_name(&mut s);
        s
    }
}

impl ItemStack {
    /// Appends the stack's text to `s`.
    pub fn push_text(&self, s: &mut String)
        ensures
            final(s)@ == old(s)@ + stack_text(*self),
    {
        self.item.push_name(s);
        push_char(s, ' ');
        push_char(s, 'x');
        push_decimal(s, self.amount);
        proof {
            assert(final(s)@ == old(s)@ + stack_text(*self));
        }
    }

    /// The stack as shown to the player, such as `Wood x3`.
    pub fn to_string(&self) -> (r: String)
        ensures
            r@ == stack_text(*self),
    {
        let mut s = String::new();
        self.push_text(&mut s);
        s
    }
}

/// Storing an item and reading it back gives the same item.
pub proof fn lemma_item_id_round_trip(item: Item)
    ensures
        item_from_id(item_id(item)) == Some(item),
{
}

/// A number that names an item is that item's number.
pub proof fn lemma_item_from_id_inverse(n: int)
    requires
        item_from_id(n) is Some,
    ensures
        item_id(item_from_id(n).unwrap()) == n,
{
}

} // verus!

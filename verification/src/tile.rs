use vstd::prelude::*;

verus! {

/// The kinds of item that can lie on a tile.
#[derive(Clone, Copy, Debug, PartialEq, Eq, Structural)]
pub enum Item {
    Key,
    Chest,
    Treasure,
}

/// The kinds of character that can stand on a tile.
#[derive(Clone, Copy, Debug, PartialEq, Eq, Structural)]
pub enum Character {
    Player,
    NPC,
    Enemy,
}

/// One square of the game map.
#[derive(Clone, Copy, Debug, PartialEq, Eq, Structural)]
pub enum Tile {
    Wall,
    Path,
    Item(Item),
    Character(Character),
    Unknown,
    Empty,
}

/// The name of an item, as its debug form spells it.
pub open spec fn item_name(item: Item) -> Seq<char> {
    match item {
        Item::Key => "Key"@,
        Item::Chest => "Chest"@,
        Item::Treasure => "Treasure"@,
    }
}

/// The name of a character, as its debug form spells it.
pub open spec fn character_name(character: Character) -> Seq<char> {
    match character {
        Character::Player => "Player"@,
        Character::NPC => "NPC"@,
        Character::Enemy => "Enemy"@,
    }
}

impl Item {
    /// The name of this item (`Key`, `Chest` or `Treasure`).
    pub fn name(&self) -> (r: &'static str)
        ensures
            r@ == item_name(*self),
    {
        match self {
            Item::Key => "Key",
            Item::Chest => "Chest",
            Item::Treasure => "Treasure",
        }
    }
}

impl Character {
    /// The name of this character (`Player`, `NPC` or `Enemy`).
    pub fn name(&self) -> (r: &'static str)
        ensures
            r@ == character_name(*self),
    {
        match self {
            Character::Player => "Player",
            Character::NPC => "NPC",
            Character::Enemy => "Enemy",
        }
    }
}

} // verus!

//! A toy monster-battle data model: a struct monster with named fields,
//! and an enum of monster kinds each carrying life, strength, charisma and
//! weapon ratings. Attacks deal damage; announcing them is the caller's
//! business.

use vstd::prelude::*;

verus! {

/// A monster with hit points and an attack strength.
pub struct BasicMonster {
    pub health: i64,
    pub attack: i64,
}

impl BasicMonster {
    /// A monster with the given hit points and attack strength.
    pub fn new(health: i64, attack: i64) -> (m: BasicMonster)
        ensures
            m.health == health,
            m.attack == attack,
    {
        BasicMonster { health, attack }
    }

    /// The damage one attack deals: the monster's attack strength.
    pub fn attack_damage(&self) -> (d: i64)
        ensures
            d == self.attack,
    {
        self.attack
    }
}

/// Monster kinds, each carrying life, strength, charisma and weapon
/// ratings in that order.
pub enum Monster {
    ScubaArgentine(i64, i64, i64, i64),
    IndustrialRaverMonkey(i64, i64, i64, i64),
}

/// The weapon rating of a monster: the last of its four ratings, whatever
/// its kind.
pub open spec fn weapon(m: Monster) -> int {
    match m {
        Monster::ScubaArgentine(_life, _strength, _charisma, w) => w as int,
        Monster::IndustrialRaverMonkey(_life, _strength, _charisma, w) => w as int,
    }
}

impl Monster {
    /// The damage one attack deals: the monster's weapon rating.
    pub fn attack_damage(&self) -> (d: i64)
        ensures
            d as int == weapon(*self),
    {
        match self {
            Monster::ScubaArgentine(_life, _strength, _charisma, w) => *w,
            Monster::IndustrialRaverMonkey(_life, _strength, _charisma, w) => *w,
        }
    }
}

} // verus!

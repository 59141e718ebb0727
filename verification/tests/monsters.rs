use worker_pipeline::monsters::{BasicMonster, Monster};
use worker_pipeline::tour::{is_four, signum};

#[test]
fn new_monster_keeps_its_ratings() {
    let m = BasicMonster::new(20, 40);
    assert_eq!(m.health, 20);
    assert_eq!(m.attack, 40);
    assert_eq!(m.attack_damage(), 40);
}

#[test]
fn literal_monster_attacks_with_its_strength() {
    let m = BasicMonster {
        health: 10,
        attack: 20,
    };
    assert_eq!(m.attack_damage(), 20);
}

#[test]
fn enum_monster_attacks_with_its_weapon() {
    let irm = Monster::IndustrialRaverMonkey(46, 35, 91, 2);
    assert_eq!(irm.attack_damage(), 2);
    let sa = Monster::ScubaArgentine(1, 2, 3, 4);
    assert_eq!(sa.attack_damage(), 4);
}

#[test]
fn four_is_four() {
    assert!(is_four(4));
    assert!(!is_four(5));
}

#[test]
fn signum_of_each_sign() {
    assert_eq!(signum(-12), -1);
    assert_eq!(signum(0), 0);
    assert_eq!(signum(7), 1);
}

use roguelike::components::{CombatStats, Color, EquipmentBundle, HealthPotion, Position, WorldPosition};
use roguelike::items::{
    first_item_at, item_from_rolls, variant_die_for, spawn_random_item, unequip_item, use_item, EquippedItem, ItemKind,
    ItemUse, UsedItem,
};
use roguelike::random::RNG;

fn pos(x: i32, y: i32) -> Position {
    Position { x, y }
}

const ORIGIN: WorldPosition = WorldPosition { x: 0, y: 0, z: 0 };

fn bonus(max_hp: i32, defense: i32, power: i32) -> EquipmentBundle {
    EquipmentBundle { stat_bonus: CombatStats { max_hp, hp: 0, defense, power } }
}

#[test]
fn armor_table() {
    let s = item_from_rolls(1, 1, pos(1, 2), ORIGIN);
    assert_eq!(s.name.0, "Leather Poncho");
    assert_eq!(s.renderable.glyph, '\u{2663}');
    assert_eq!(s.renderable.fg, Color::White);
    assert_eq!(s.kind, ItemKind::Armor(bonus(0, 1, 0)));
    assert_eq!(s.position, pos(1, 2));
    assert_eq!(item_from_rolls(1, 46, pos(0, 0), ORIGIN).name.0, "Enchanted Leather Jerkin");
    assert_eq!(item_from_rolls(1, 47, pos(0, 0), ORIGIN).kind, ItemKind::Armor(bonus(5, 3, 2)));
    assert_eq!(item_from_rolls(1, 75, pos(0, 0), ORIGIN).name.0, "Splint Mail");
    let plate = item_from_rolls(1, 80, pos(0, 0), ORIGIN);
    assert_eq!(plate.name.0, "Xurich's Arcane Full Plate");
    assert_eq!(plate.kind, ItemKind::Armor(bonus(10, 5, 3)));
    assert_eq!(plate.renderable.fg, Color::Orange);
    assert_eq!(item_from_rolls(1, 86, pos(0, 0), ORIGIN).name.0, "Cloak");
}

#[test]
fn weapon_table() {
    let s = item_from_rolls(2, 10, pos(0, 0), ORIGIN);
    assert_eq!(s.name.0, "Fine Dagger");
    assert_eq!(s.renderable.glyph, '\u{2660}');
    assert_eq!(s.kind, ItemKind::Weapon(bonus(0, 0, 2)));
    assert_eq!(item_from_rolls(2, 11, pos(0, 0), ORIGIN).renderable.fg, Color::SeaGreen);
    assert_eq!(item_from_rolls(2, 21, pos(0, 0), ORIGIN).name.0, "Enchanted Dagger");
    assert_eq!(item_from_rolls(2, 25, pos(0, 0), ORIGIN).kind, ItemKind::Weapon(bonus(5, 2, 1)));
    assert_eq!(item_from_rolls(2, 26, pos(0, 0), ORIGIN).name.0, "Magic Dagger of Heros");
    assert_eq!(item_from_rolls(2, 27, pos(0, 0), ORIGIN).name.0, "Dagger");
}

#[test]
fn potion_table() {
    let s = item_from_rolls(3, 1, pos(0, 0), ORIGIN);
    assert_eq!(s.name.0, "Small Health Potion");
    assert_eq!(s.renderable.glyph, '\u{2665}');
    assert_eq!(s.kind, ItemKind::Potion(HealthPotion { heal_amount: 5 }));
    assert_eq!(item_from_rolls(6, 3, pos(0, 0), ORIGIN).kind, ItemKind::Potion(HealthPotion { heal_amount: 10 }));
    assert_eq!(item_from_rolls(4, 4, pos(0, 0), ORIGIN).renderable.fg, Color::Red);
    assert_eq!(item_from_rolls(5, 6, pos(0, 0), ORIGIN).name.0, "Small Health Potion");
}

#[test]
fn random_items_come_from_the_tables() {
    let mut rng = RNG(rltk::RandomNumberGenerator::seeded(3));
    let names = [
        "Leather Poncho", "Enchanted Leather Jerkin", "Magic Chain Mail", "Splint Mail",
        "Xurich's Arcane Full Plate", "Cloak", "Fine Dagger", "Magic Dagger", "Enchanted Dagger",
        "Magic Dagger of Parrying", "Magic Dagger of Heros", "Dagger", "Small Health Potion",
        "Health Potion", "Big Health Potion",
    ];
    let world = WorldPosition { x: 1, y: -1, z: 0 };
    let mut potions = 0;
    for i in 0..200 {
        let s = spawn_random_item(pos(i, 1), &mut rng, world);
        assert!(names.contains(&s.name.0.as_str()));
        assert_eq!(s.position, pos(i, 1));
        assert_eq!(s.world_pos, world);
        if let ItemKind::Potion(_) = s.kind {
            potions += 1;
        }
    }
    assert!(potions > 0 && potions < 200);
}

fn stats(max_hp: i32, hp: i32, defense: i32, power: i32) -> CombatStats {
    CombatStats { max_hp, hp, defense, power }
}

fn weapon(b: EquipmentBundle) -> UsedItem {
    UsedItem { potion: None, equipment: Some(b), weapon: true, armor: false }
}

fn armor(b: EquipmentBundle) -> UsedItem {
    UsedItem { potion: None, equipment: Some(b), weapon: false, armor: true }
}

#[test]
fn equipping_a_weapon_swaps_weapons() {
    let mut s = stats(30, 20, 2, 7);
    let old = EquippedItem { weapon: true, armor: false, equipment: Some(bonus(0, 0, 2)) };
    let coat = EquippedItem { weapon: false, armor: true, equipment: Some(bonus(5, 1, 0)) };
    let out = use_item(&mut s, &weapon(bonus(5, 3, 3)), &vec![coat, old]);
    match out {
        ItemUse::Equipped { unequipped } => assert_eq!(unequipped, vec![1]),
        _ => panic!("not equipped"),
    }
    assert_eq!(s, stats(35, 20, 5, 8));
}

#[test]
fn equipping_armor_takes_off_every_bonus_item() {
    let mut s = stats(40, 10, 6, 9);
    let dagger = EquippedItem { weapon: true, armor: false, equipment: Some(bonus(0, 0, 2)) };
    let coat = EquippedItem { weapon: false, armor: true, equipment: Some(bonus(5, 1, 0)) };
    let out = use_item(&mut s, &armor(bonus(0, 5, 0)), &vec![dagger, coat]);
    match out {
        ItemUse::Equipped { unequipped } => assert_eq!(unequipped, vec![0, 1]),
        _ => panic!("not equipped"),
    }
    assert_eq!(s, stats(35, 10, 10, 7));
}

#[test]
fn drinking_heals_up_to_maximum() {
    let potion = UsedItem { potion: Some(HealthPotion { heal_amount: 10 }), equipment: None, weapon: false, armor: false };
    let mut s = stats(30, 25, 2, 5);
    assert!(matches!(use_item(&mut s, &potion, &vec![]), ItemUse::Drunk));
    assert_eq!(s, stats(30, 30, 2, 5));
    let mut t = stats(30, 5, 2, 5);
    use_item(&mut t, &potion, &vec![]);
    assert_eq!(t.hp, 15);
}

#[test]
fn plain_items_do_nothing() {
    let thing = UsedItem { potion: None, equipment: None, weapon: false, armor: false };
    let mut s = stats(30, 25, 2, 5);
    assert!(matches!(use_item(&mut s, &thing, &vec![]), ItemUse::Ignored));
    assert_eq!(s, stats(30, 25, 2, 5));
}

#[test]
fn unequip_undoes_equip() {
    let start = stats(30, 12, 2, 5);
    let mut s = start;
    let plate = bonus(10, 5, 3);
    use_item(&mut s, &armor(plate), &vec![]);
    assert_eq!(s, stats(40, 12, 7, 8));
    unequip_item(&mut s, &plate.stat_bonus);
    assert_eq!(s, start);
}

#[test]
fn pickup_finds_first_item_at_position() {
    let items = vec![pos(1, 1), pos(2, 3), pos(2, 3)];
    assert_eq!(first_item_at(&items, pos(2, 3)), Some(1));
    assert_eq!(first_item_at(&items, pos(1, 1)), Some(0));
    assert_eq!(first_item_at(&items, pos(9, 9)), None);
}

#[test]
fn reusing_the_equipped_weapon_changes_nothing() {
    let dagger = bonus(0, 1, 4);
    let mut s = stats(30, 20, 2, 7);
    let out = use_item(&mut s, &weapon(dagger), &vec![]);
    assert!(matches!(out, ItemUse::Equipped { ref unequipped } if unequipped.is_empty()));
    let equipped = stats(30, 20, 3, 11);
    assert_eq!(s, equipped);
    let coat = EquippedItem { weapon: false, armor: true, equipment: Some(bonus(5, 1, 0)) };
    let itself = EquippedItem { weapon: true, armor: false, equipment: Some(dagger) };
    let out = use_item(&mut s, &weapon(dagger), &vec![coat, itself]);
    match out {
        ItemUse::Equipped { unequipped } => assert_eq!(unequipped, vec![1]),
        _ => panic!("not equipped"),
    }
    assert_eq!(s, equipped);
}

#[test]
fn variant_dice_per_item_type() {
    assert_eq!(variant_die_for(1), 100);
    assert_eq!(variant_die_for(2), 50);
    for t in 3..=6 {
        assert_eq!(variant_die_for(t), 6);
    }
}

#[test]
fn random_items_follow_the_dice() {
    let mut a = RNG(rltk::RandomNumberGenerator::seeded(21));
    let mut b = RNG(rltk::RandomNumberGenerator::seeded(21));
    let mut names = std::collections::HashSet::new();
    for i in 0..30 {
        let x = spawn_random_item(pos(i, 2), &mut a, ORIGIN);
        let y = spawn_random_item(pos(i, 2), &mut b, ORIGIN);
        assert_eq!(x.name.0, y.name.0);
        assert_eq!(x.kind, y.kind);
        names.insert(x.name.0);
    }
    assert!(names.len() > 1);
}

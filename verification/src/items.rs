//! Items: what a random item is, and what using, equipping and unequipping
//! one does to its bearer.
use vstd::prelude::*;

use crate::components::{
    CombatStats, Color, EquipmentBundle, HealthPotion, Name, Position, Renderable, WorldPosition,
};
use crate::random::{dice_roll, roll_dice, RNG};
use rltk::RandomNumberGenerator;

verus! {

/// What an item is for.
#[derive(Clone, Copy, Debug, PartialEq, Eq, Structural)]
pub enum ItemKind {
    Armor(EquipmentBundle),
    Weapon(EquipmentBundle),
    Potion(HealthPotion),
}

/// An item to be placed in the world.
#[derive(Clone, Debug)]
pub struct ItemSpawn {
    pub name: Name,
    pub renderable: Renderable,
    pub kind: ItemKind,
    pub position: Position,
    pub world_pos: WorldPosition,
}

/// Statistics that only add to defence and power.
pub open spec fn bonus(max_hp: i32, defense: i32, power: i32) -> CombatStats {
    CombatStats { max_hp, hp: 0, defense, power }
}

/// The armour a roll of a hundred-sided die gives: its name, how it is drawn
/// (a club in the given colour) and the bonus it gives.
pub open spec fn armor_for_roll(roll: int) -> (Seq<char>, Color, CombatStats) {
    if 1 <= roll <= 25 {
        ("Leather Poncho"@, Color::White, bonus(0, 1, 0))
    } else if 26 <= roll <= 46 {
        ("Enchanted Leather Jerkin"@, Color::Blue, bonus(0, 2, 2))
    } else if 47 <= roll <= 62 {
        ("Magic Chain Mail"@, Color::Purple, bonus(5, 3, 2))
    } else if 63 <= roll <= 75 {
        ("Splint Mail"@, Color::White, bonus(0, 5, 0))
    } else if 76 <= roll <= 85 {
        ("Xurich's Arcane Full Plate"@, Color::Orange, bonus(10, 5, 3))
    } else {
        ("Cloak"@, Color::AntiqueWhite, bonus(0, 1, 0))
    }
}

/// The weapon a roll of a fifty-sided die gives: its name, how it is drawn
/// (a spade in the given colour) and the bonus it gives.
pub open spec fn weapon_for_roll(roll: int) -> (Seq<char>, Color, CombatStats) {
    if 1 <= roll <= 10 {
        ("Fine Dagger"@, Color::White, bonus(0, 0, 2))
    } else if 11 <= roll <= 16 {
        ("Magic Dagger"@, Color::SeaGreen, bonus(5, 0, 1))
    } else if 17 <= roll <= 21 {
        ("Enchanted Dagger"@, Color::Blue, bonus(0, 0, 2))
    } else if 22 <= roll <= 25 {
        ("Magic Dagger of Parrying"@, Color::Purple, bonus(5, 2, 1))
    } else if roll == 26 {
        ("Magic Dagger of Heros"@, Color::Purple, bonus(5, 3, 3))
    } else {
        ("Dagger"@, Color::AntiqueWhite, bonus(0, 0, 1))
    }
}

/// The potion a roll of a six-sided die gives: its name, how it is drawn
/// (a heart in the given colour) and how much it heals.
pub open spec fn potion_for_roll(roll: int) -> (Seq<char>, Color, i32) {
    if roll == 1 {
        ("Small Health Potion"@, Color::Maroon, 5i32)
    } else if roll == 2 || roll == 3 {
        ("Health Potion"@, Color::Crimson, 10i32)
    } else if roll == 4 {
        ("Big Health Potion"@, Color::Red, 15i32)
    } else {
        ("Small Health Potion"@, Color::Maroon, 5i32)
    }
}

/// The glyph armour is drawn with.
pub open spec fn armor_glyph() -> char {
    '\u{2663}'
}

/// The glyph weapons are drawn with.
pub open spec fn weapon_glyph() -> char {
    '\u{2660}'
}

/// The glyph potions are drawn with.
pub open spec fn potion_glyph() -> char {
    '\u{2665}'
}

/// The item that a roll of `item_type` (1 armour, 2 weapon, 3 to 6 potion)
/// and a roll of `variant` choose, as name, look and kind.
pub open spec fn item_for_rolls(item_type: int, variant: int) -> (Seq<char>, Renderable, ItemKind) {
    if item_type == 1 {
        let (name, fg, b) = armor_for_roll(variant);
        (name, Renderable { glyph: armor_glyph(), fg, bg: Color::Black }, ItemKind::Armor(EquipmentBundle { stat_bonus: b }))
    } else if item_type == 2 {
        let (name, fg, b) = weapon_for_roll(variant);
        (name, Renderable { glyph: weapon_glyph(), fg, bg: Color::Black }, ItemKind::Weapon(EquipmentBundle { stat_bonus: b }))
    } else {
        let (name, fg, heal) = potion_for_roll(variant);
        (name, Renderable { glyph: potion_glyph(), fg, bg: Color::Black }, ItemKind::Potion(HealthPotion { heal_amount: heal }))
    }
}

/// The number of faces of the die that picks the variant of an item type.
pub open spec fn variant_die(item_type: int) -> int {
    if item_type == 1 {
        100
    } else if item_type == 2 {
        50
    } else {
        6
    }
}

/// The number of faces of the die that picks the variant of an item of
/// type `item_type` (see `variant_die`).
pub fn variant_die_for(item_type: i32) -> (d: i32)
    ensures
        d == variant_die(item_type as int),
{
    if item_type == 1 {
        100
    } else if item_type == 2 {
        50
    } else {
        6
    }
}

/// Whether a spawn is the item that the two rolls choose.
pub open spec fn spawn_is(s: ItemSpawn, item_type: int, variant: int) -> bool {
    let (name, renderable, kind) = item_for_rolls(item_type, variant);
    &&& s.name.0@ == name
    &&& s.renderable == renderable
    &&& s.kind == kind
}

fn stats(max_hp: i32, defense: i32, power: i32) -> (s: CombatStats)
    ensures
        s == bonus(max_hp, defense, power),
{
    CombatStats { max_hp, hp: 0, defense, power }
}

/// The item that a roll of `item_type` and a roll of `variant` choose, at
/// `position` on the map at `world_pos`.
pub fn item_from_rolls(item_type: i32, variant: i32, position: Position, world_pos: WorldPosition) -> (s: ItemSpawn)
    ensures
        spawn_is(s, item_type as int, variant as int),
        s.position == position,
        s.world_pos == world_pos,
{
    let (name, fg, kind) = if item_type == 1 {
        let (name, fg, b) = if 1 <= variant && variant <= 25 {
            ("Leather Poncho".to_owned(), Color::White, stats(0, 1, 0))
        } else if 26 <= variant && variant <= 46 {
            ("Enchanted Leather Jerkin".to_owned(), Color::Blue, stats(0, 2, 2))
        } else if 47 <= variant && variant <= 62 {
            ("Magic Chain Mail".to_owned(), Color::Purple, stats(5, 3, 2))
        } else if 63 <= variant && variant <= 75 {
            ("Splint Mail".to_owned(), Color::White, stats(0, 5, 0))
        } else if 76 <= variant && variant <= 85 {
            ("Xurich's Arcane Full Plate".to_owned(), Color::Orange, stats(10, 5, 3))
        } else {
            ("Cloak".to_owned(), Color::AntiqueWhite, stats(0, 1, 0))
        };
        (name, fg, ItemKind::Armor(EquipmentBundle { stat_bonus: b }))
    } else if item_type == 2 {
        let (name, fg, b) = if 1 <= variant && variant <= 10 {
            ("Fine Dagger".to_owned(), Color::White, stats(0, 0, 2))
        } else if 11 <= variant && variant <= 16 {
            ("Magic Dagger".to_owned(), Color::SeaGreen, stats(5, 0, 1))
        } else if 17 <= variant && variant <= 21 {
            ("Enchanted Dagger".to_owned(), Color::Blue, stats(0, 0, 2))
        } else if 22 <= variant && variant <= 25 {
            ("Magic Dagger of Parrying".to_owned(), Color::Purple, stats(5, 2, 1))
        } else if variant == 26 {
            ("Magic Dagger of Heros".to_owned(), Color::Purple, stats(5, 3, 3))
        } else {
            ("Dagger".to_owned(), Color::AntiqueWhite, stats(0, 0, 1))
        };
        (name, fg, ItemKind::Weapon(EquipmentBundle { stat_bonus: b }))
    } else {
        let (name, fg, heal) = if variant == 1 {
            ("Small Health Potion".to_owned(), Color::Maroon, 5)
        } else if variant == 2 || variant == 3 {
            ("Health Potion".to_owned(), Color::Crimson, 10)
        } else if variant == 4 {
            ("Big Health Potion".to_owned(), Color::Red, 15)
        } else {
            ("Small Health Potion".to_owned(), Color::Maroon, 5)
        };
        (name, fg, ItemKind::Potion(HealthPotion { heal_amount: heal }))
    };
    let glyph = if item_type == 1 {
        '\u{2663}'
    } else if item_type == 2 {
        '\u{2660}'
    } else {
        '\u{2665}'
    };
    ItemSpawn {
        name: Name(name),
        renderable: Renderable { glyph, fg, bg: Color::Black },
        kind,
        position,
        world_pos,
    }
}

/// One of the items two rolls can choose, at `position` on the map at `world_pos`.
pub open spec fn random_item_at(s: ItemSpawn, position: Position, world_pos: WorldPosition) -> bool {
    &&& exists|item_type: int, variant: int|
        1 <= item_type <= 6 && 1 <= variant <= variant_die(item_type) && spawn_is(s, item_type, variant)
    &&& s.position == position
    &&& s.world_pos == world_pos
}

/// The two rolls that choose an item from a generator in state `g` (its
/// type with a six-sided die, then its variant with a `variant_die`-sided
/// die), and the generator's state afterwards.
pub open spec fn item_rolls(g: RandomNumberGenerator) -> (int, int, RandomNumberGenerator) {
    let t = dice_roll(g, 1, 6);
    let v = dice_roll(t.1, 1, variant_die(t.0 as int) as i32);
    (t.0 as int, v.0 as int, v.1)
}

/// The state of a generator that started in state `g` after `k` items were
/// rolled one after the other.
pub open spec fn after_item_rolls(g: RandomNumberGenerator, k: nat) -> RandomNumberGenerator
    decreases k,
{
    if k == 0 {
        g
    } else {
        item_rolls(after_item_rolls(g, (k - 1) as nat)).2
    }
}

/// Rolling items one after the other threads one generator through them:
/// `n` items and then `m` more leave it as `n + m` items do.
pub proof fn law_item_rolls_chain(g: RandomNumberGenerator, n: nat, m: nat)
    ensures
        after_item_rolls(after_item_rolls(g, n), m) == after_item_rolls(g, n + m),
    decreases m,
{
    if m > 0 {
        law_item_rolls_chain(g, n, (m - 1) as nat);
        assert((n + m - 1) as nat == n + (m - 1) as nat);
    }
}

/// Rolls a random item at `position` on the map at `world_pos`: a
/// six-sided die picks armour (1), a weapon (2) or a potion (3 to 6), and a
/// second die with as many faces as `variant_die` says picks which one; both
/// dice are rolled with `rng`, one after the other (see `dice_roll`).
pub fn spawn_random_item(position: Position, rng: &mut RNG, world_pos: WorldPosition) -> (s: ItemSpawn)
    ensures
        random_item_at(s, position, world_pos),
        ({
            let (item_type, after_type) = dice_roll(old(rng).0, 1, 6);
            let (variant, after_variant) = dice_roll(after_type, 1, variant_die(item_type as int) as i32);
            &&& spawn_is(s, item_type as int, variant as int)
            &&& final(rng).0 == after_variant
        }),
{
    let item_type = roll_dice(&mut rng.0, 1, 6);
    let die = variant_die_for(item_type);
    let variant = roll_dice(&mut rng.0, 1, die);
    let s = item_from_rolls(item_type, variant, position, world_pos);
    assert(spawn_is(s, item_type as int, variant as int));
    s
}


/// What the logic needs to know of an item being used.
#[derive(Clone, Copy, Debug, PartialEq, Eq, Structural)]
pub struct UsedItem {
    pub potion: Option<HealthPotion>,
    pub equipment: Option<EquipmentBundle>,
    pub weapon: bool,
    pub armor: bool,
}

/// What the logic needs to know of an item its bearer has equipped.
#[derive(Clone, Copy, Debug, PartialEq, Eq, Structural)]
pub struct EquippedItem {
    pub weapon: bool,
    pub armor: bool,
    pub equipment: Option<EquipmentBundle>,
}

/// What using an item did.
#[derive(Clone, Debug)]
pub enum ItemUse {
    /// The item was equipped; the equipped items at these positions (in the
    /// order they were taken off, possibly twice) lost their equipped mark.
    Equipped { unequipped: Vec<usize> },
    /// The potion was drunk and is used up.
    Drunk,
    /// The item does nothing when used.
    Ignored,
}

/// The three statistics that equipment changes, as mathematical integers:
/// power, defence and maximum hit points.
pub open spec fn gear_stats(s: CombatStats) -> (int, int, int) {
    (s.power as int, s.defense as int, s.max_hp as int)
}

/// `s` with the bonus `b` taken off.
pub open spec fn minus_bonus(s: (int, int, int), b: CombatStats) -> (int, int, int) {
    (s.0 - b.power, s.1 - b.defense, s.2 - b.max_hp)
}

/// `s` with the bonus `b` added.
pub open spec fn plus_bonus(s: (int, int, int), b: CombatStats) -> (int, int, int) {
    (s.0 + b.power, s.1 + b.defense, s.2 + b.max_hp)
}

/// Whether all three statistics fit an `i32`.
pub open spec fn fits(s: (int, int, int)) -> bool {
    &&& i32::MIN <= s.0 <= i32::MAX
    &&& i32::MIN <= s.1 <= i32::MAX
    &&& i32::MIN <= s.2 <= i32::MAX
}

/// Equipping `item` takes `e` off as a weapon: both are weapons and `e`
/// gives a bonus.
pub open spec fn weapon_clash(item: UsedItem, e: EquippedItem) -> bool {
    item.weapon && e.weapon && e.equipment is Some
}

/// Equipping `item` takes `e` off as armour: `item` is armour and `e` gives
/// a bonus, whatever `e` is.
pub open spec fn armor_clash(item: UsedItem, e: EquippedItem) -> bool {
    item.armor && e.equipment is Some
}

/// The bonus an equipped item gives.
pub open spec fn equipped_bonus(e: EquippedItem) -> CombatStats {
    e.equipment->Some_0.stat_bonus
}

/// The statistics after `e` was compared with the item as a weapon.
pub open spec fn after_weapon_swap(s: (int, int, int), item: UsedItem, e: EquippedItem) -> (int, int, int) {
    if weapon_clash(item, e) {
        minus_bonus(s, equipped_bonus(e))
    } else {
        s
    }
}

/// The statistics after `e` was compared with the item as a weapon.and as armour.
pub open spec fn after_swap(s: (int, int, int), item: UsedItem, e: EquippedItem) -> (int, int, int) {
    let m = after_weapon_swap(s, item, e);
    if armor_clash(item, e) {
        minus_bonus(m, equipped_bonus(e))
    } else {
        m
    }
}

/// The statistics after every equipped item was compared with the item, in order.
pub open spec fn after_swaps(s: (int, int, int), item: UsedItem, eq: Seq<EquippedItem>) -> (int, int, int)
    decreases eq.len(),
{
    if eq.len() == 0 {
        s
    } else {
        after_swap(after_swaps(s, item, eq.drop_last()), item, eq.last())
    }
}

/// The positions of the equipped items taken off, in order.
pub open spec fn taken_off(item: UsedItem, eq: Seq<EquippedItem>) -> Seq<usize>
    decreases eq.len(),
{
    if eq.len() == 0 {
        Seq::empty()
    } else {
        let k = (eq.len() - 1) as usize;
        let prev = taken_off(item, eq.drop_last());
        let w = if weapon_clash(item, eq.last()) { prev.push(k) } else { prev };
        if armor_clash(item, eq.last()) { w.push(k) } else { w }
    }
}

/// Every statistic met while taking off equipped items and putting `item`
/// on fits an `i32`.
pub open spec fn equip_fits(s: (int, int, int), item: UsedItem, eq: Seq<EquippedItem>) -> bool {
    &&& forall|k: int|
        0 <= k < eq.len() ==> {
            let p = after_swaps(s, item, #[trigger] eq.subrange(0, k));
            fits(after_weapon_swap(p, item, eq[k])) && fits(after_swap(p, item, eq[k]))
        }
    &&& item.equipment is Some ==> fits(
        plus_bonus(after_swaps(s, item, eq), item.equipment->Some_0.stat_bonus),
    )
}

/// Drinking heals by the potion's amount, up to the maximum hit points.
pub open spec fn healed(hp: int, max_hp: int, heal: int) -> int {
    if max_hp <= hp + heal {
        max_hp
    } else {
        hp + heal
    }
}

/// The bearer with statistics `stats` uses `item` while wearing `equipped`.
/// Equipment is put on: each equipped item that clashes with it (see
/// `weapon_clash`, `armor_clash`) is taken off and its bonus removed, then
/// the item's bonus is added. Otherwise a potion is drunk: hit points rise by
/// its amount, up to the maximum. Anything else is ignored.
pub fn use_item(stats: &mut CombatStats, item: &UsedItem, equipped: &Vec<EquippedItem>) -> (outcome: ItemUse)
    requires
        item.equipment is Some ==> equip_fits(gear_stats(*old(stats)), *item, equipped@),
        item.equipment is None && item.potion is Some ==> i32::MIN <= old(stats).hp
            + item.potion->Some_0.heal_amount <= i32::MAX,
    ensures
        match item.equipment {
            Some(b) => {
                &&& gear_stats(*final(stats)) == plus_bonus(
                    after_swaps(gear_stats(*old(stats)), *item, equipped@),
                    b.stat_bonus,
                )
                &&& final(stats).hp == old(stats).hp
                &&& outcome matches ItemUse::Equipped { unequipped } && unequipped@ == taken_off(
                    *item,
                    equipped@,
                )
            },
            None => match item.potion {
                Some(p) => {
                    &&& final(stats).hp == healed(old(stats).hp as int, old(stats).max_hp as int, p.heal_amount as int)
                    &&& final(stats).max_hp == old(stats).max_hp
                    &&& final(stats).defense == old(stats).defense
                    &&& final(stats).power == old(stats).power
                    &&& outcome is Drunk
                },
                None => *final(stats) == *old(stats) && outcome is Ignored,
            },
        },
{
    match item.equipment {
        Some(equipment) => {
            let mut unequipped: Vec<usize> = Vec::new();
            let mut k: usize = 0;
            while k < equipped.len()
                invariant
                    k <= equipped.len(),
                    item.equipment == Some(equipment),
                    equip_fits(gear_stats(*old(stats)), *item, equipped@),
                    gear_stats(*stats) == after_swaps(gear_stats(*old(stats)), *item, equipped@.subrange(0, k as int)),
                    stats.hp == old(stats).hp,
                    unequipped@ == taken_off(*item, equipped@.subrange(0, k as int)),
                decreases equipped.len() - k,
            {
                let e = equipped[k];
                let ghost sub = equipped@.subrange(0, k as int);
                assert(equipped@.subrange(0, k + 1).drop_last() == sub);
                assert(fits(after_weapon_swap(after_swaps(gear_stats(*old(stats)), *item, sub), *item, e)));
                assert(fits(after_swap(after_swaps(gear_stats(*old(stats)), *item, sub), *item, e)));
                if item.weapon && e.weapon {
                    if let Some(b) = e.equipment {
                        stats.power = stats.power - b.stat_bonus.power;
                        stats.defense = stats.defense - b.stat_bonus.defense;
                        stats.max_hp = stats.max_hp - b.stat_bonus.max_hp;
                        unequipped.push(k);
                    }
                }
                if item.armor && e.equipment.is_some() {
                    if let Some(b) = e.equipment {
                        stats.power = stats.power - b.stat_bonus.power;
                        stats.defense = stats.defense - b.stat_bonus.defense;
                        stats.max_hp = stats.max_hp - b.stat_bonus.max_hp;
                        unequipped.push(k);
                    }
                }
                k += 1;
            }
            assert(equipped@.subrange(0, equipped.len() as int) == equipped@);
            stats.power = stats.power + equipment.stat_bonus.power;
            stats.defense = stats.defense + equipment.stat_bonus.defense;
            stats.max_hp = stats.max_hp + equipment.stat_bonus.max_hp;
            ItemUse::Equipped { unequipped }
        },
        None => {
            match item.potion {
                Some(potion) => {
                    let restored = stats.hp + potion.heal_amount;
                    stats.hp = if stats.max_hp <= restored {
                        stats.max_hp
                    } else {
                        restored
                    };
                    ItemUse::Drunk
                },
                None => ItemUse::Ignored,
            }
        },
    }
}

/// Takes off equipment whose bonus is `item_stats`: its bearer loses the
/// power, defence and maximum hit points it gave.
pub fn unequip_item(player_stats: &mut CombatStats, item_stats: &CombatStats)
    requires
        fits(minus_bonus(gear_stats(*old(player_stats)), *item_stats)),
    ensures
        gear_stats(*final(player_stats)) == minus_bonus(gear_stats(*old(player_stats)), *item_stats),
        final(player_stats).hp == old(player_stats).hp,
{
    player_stats.power = player_stats.power - item_stats.power;
    player_stats.defense = player_stats.defense - item_stats.defense;
    player_stats.max_hp = player_stats.max_hp - item_stats.max_hp;
}

/// Taking off a piece of equipment undoes putting it on: when nothing
/// equipped clashes with it, equipping an item and then unequipping it leaves
/// power, defence and maximum hit points as they were.
pub proof fn law_unequip_undoes_equip(s: (int, int, int), item: UsedItem, eq: Seq<EquippedItem>)
    requires
        item.equipment is Some,
        forall|k: int| 0 <= k < eq.len() ==> !weapon_clash(item, #[trigger] eq[k]) && !armor_clash(item, eq[k]),
    ensures
        minus_bonus(plus_bonus(after_swaps(s, item, eq), item.equipment->Some_0.stat_bonus), item.equipment->Some_0.stat_bonus) == s,
    decreases eq.len(),
{
    lemma_no_clash_keeps(s, item, eq);
}

proof fn lemma_no_clash_keeps(s: (int, int, int), item: UsedItem, eq: Seq<EquippedItem>)
    requires
        forall|k: int| 0 <= k < eq.len() ==> !weapon_clash(item, #[trigger] eq[k]) && !armor_clash(item, eq[k]),
    ensures
        after_swaps(s, item, eq) == s,
        taken_off(item, eq).len() == 0,
    decreases eq.len(),
{
    if eq.len() > 0 {
        assert forall|k: int| 0 <= k < eq.drop_last().len() implies !weapon_clash(item, #[trigger] eq.drop_last()[k]) && !armor_clash(item, eq.drop_last()[k]) by {
            assert(eq.drop_last()[k] == eq[k]);
        }
        lemma_no_clash_keeps(s, item, eq.drop_last());
        assert(!weapon_clash(item, eq[eq.len() - 1]));
    }
}

/// Using the equipped weapon again changes nothing: when a weapon that is
/// not armour is itself the one equipped weapon giving a bonus (at `k`,
/// giving the item's own bonus), using it takes exactly that one off and puts
/// it back on, leaving power, defence and maximum hit points as they were.
pub proof fn law_reusing_equipped_weapon_changes_nothing(
    s: (int, int, int),
    item: UsedItem,
    eq: Seq<EquippedItem>,
    k: int,
)
    requires
        item.equipment is Some,
        item.weapon,
        !item.armor,
        0 <= k < eq.len(),
        weapon_clash(item, eq[k]),
        equipped_bonus(eq[k]) == item.equipment->Some_0.stat_bonus,
        forall|j: int| 0 <= j < eq.len() && j != k ==> !weapon_clash(item, #[trigger] eq[j]),
    ensures
        plus_bonus(after_swaps(s, item, eq), item.equipment->Some_0.stat_bonus) == s,
        taken_off(item, eq) == seq![k as usize],
{
    lemma_single_clash(s, item, eq, k);
}

proof fn lemma_single_clash(s: (int, int, int), item: UsedItem, eq: Seq<EquippedItem>, k: int)
    requires
        !item.armor,
        0 <= k < eq.len(),
        weapon_clash(item, eq[k]),
        forall|j: int| 0 <= j < eq.len() && j != k ==> !weapon_clash(item, #[trigger] eq[j]),
    ensures
        after_swaps(s, item, eq) == minus_bonus(s, equipped_bonus(eq[k])),
        taken_off(item, eq) == seq![k as usize],
    decreases eq.len(),
{
    let d = eq.drop_last();
    if k == eq.len() - 1 {
        assert forall|j: int| 0 <= j < d.len() implies !weapon_clash(item, #[trigger] d[j]) && !armor_clash(item, d[j]) by {
            assert(d[j] == eq[j]);
        }
        lemma_no_clash_keeps(s, item, d);
        assert(taken_off(item, d) == Seq::<usize>::empty());
    } else {
        assert(d[k] == eq[k]);
        assert forall|j: int| 0 <= j < d.len() && j != k implies !weapon_clash(item, #[trigger] d[j]) by {
            assert(d[j] == eq[j]);
        }
        lemma_single_clash(s, item, d, k);
        assert(!weapon_clash(item, eq[eq.len() - 1]));
    }
}

/// Drinking never leaves hit points above the maximum, and never lowers
/// them when the potion heals and they were not above the maximum.
pub proof fn law_potion_within_max(hp: int, max_hp: int, heal: int)
    ensures
        healed(hp, max_hp, heal) <= max_hp,
        heal >= 0 && hp <= max_hp ==> healed(hp, max_hp, heal) >= hp,
{
}


/// Among items lying on the map at `items`, the first at `position`.
pub fn first_item_at(items: &Vec<Position>, position: Position) -> (found: Option<usize>)
    ensures
        match found {
            Some(k) => k < items.len() && items@[k as int] == position && forall|j: int|
                0 <= j < k ==> #[trigger] items@[j] != position,
            None => !items@.contains(position),
        },
{
    let mut k: usize = 0;
    while k < items.len()
        invariant
            k <= items.len(),
            forall|j: int| 0 <= j < k ==> #[trigger] items@[j] != position,
        decreases items.len() - k,
    {
        if items[k].x == position.x && items[k].y == position.y {
            return Some(k);
        }
        k += 1;
    }
    None
}


fn fits_i64(v: i64) -> (b: bool)
    ensures
        b == (i32::MIN <= v <= i32::MAX),
{
    i32::MIN as i64 <= v && v <= i32::MAX as i64
}

/// Whether `use_item` can run on these arguments without any statistic
/// leaving the range of an `i32`.
pub fn use_item_in_range(stats: &CombatStats, item: &UsedItem, equipped: &Vec<EquippedItem>) -> (ok: bool)
    ensures
        ok == ((item.equipment is Some ==> equip_fits(gear_stats(*stats), *item, equipped@)) && (
        item.equipment is None && item.potion is Some ==> i32::MIN <= stats.hp
            + item.potion->Some_0.heal_amount <= i32::MAX)),
{
    match item.equipment {
        Some(equipment) => {
            let mut power: i64 = stats.power as i64;
            let mut defense: i64 = stats.defense as i64;
            let mut max_hp: i64 = stats.max_hp as i64;
            let ghost s0 = gear_stats(*stats);
            let mut k: usize = 0;
            while k < equipped.len()
                invariant
                    k <= equipped.len(),
                    item.equipment == Some(equipment),
                    s0 == gear_stats(*stats),
                    (power as int, defense as int, max_hp as int) == after_swaps(s0, *item, equipped@.subrange(0, k as int)),
                    fits((power as int, defense as int, max_hp as int)),
                    forall|j: int|
                        0 <= j < k ==> {
                            let p = after_swaps(s0, *item, #[trigger] equipped@.subrange(0, j));
                            fits(after_weapon_swap(p, *item, equipped@[j])) && fits(after_swap(p, *item, equipped@[j]))
                        },
                decreases equipped.len() - k,
            {
                let e = equipped[k];
                assert(equipped@.subrange(0, k + 1).drop_last() == equipped@.subrange(0, k as int));
                let ghost p = after_swaps(s0, *item, equipped@.subrange(0, k as int));
                let ghost mid = after_weapon_swap(p, *item, e);
                if item.weapon && e.weapon {
                    if let Some(b) = e.equipment {
                        power = power - b.stat_bonus.power as i64;
                        defense = defense - b.stat_bonus.defense as i64;
                        max_hp = max_hp - b.stat_bonus.max_hp as i64;
                        if !(fits_i64(power) && fits_i64(defense) && fits_i64(max_hp)) {
                            assert(!fits(after_weapon_swap(p, *item, equipped@[k as int])));
                            proof {
                                if equip_fits(gear_stats(*stats), *item, equipped@) {
                                    let sub = equipped@.subrange(0, k as int);
                                    assert(fits(after_weapon_swap(after_swaps(s0, *item, sub), *item, equipped@[k as int])));
                                    assert(fits(after_swap(after_swaps(s0, *item, sub), *item, equipped@[k as int])));
                                }
                            }
                            return false;
                        }
                    }
                }
                assert((power as int, defense as int, max_hp as int) == mid);
                if item.armor {
                    if let Some(b) = e.equipment {
                        power = power - b.stat_bonus.power as i64;
                        defense = defense - b.stat_bonus.defense as i64;
                        max_hp = max_hp - b.stat_bonus.max_hp as i64;
                        if !(fits_i64(power) && fits_i64(defense) && fits_i64(max_hp)) {
                            assert(!fits(after_swap(p, *item, equipped@[k as int])));
                            proof {
                                if equip_fits(gear_stats(*stats), *item, equipped@) {
                                    let sub = equipped@.subrange(0, k as int);
                                    assert(fits(after_weapon_swap(after_swaps(s0, *item, sub), *item, equipped@[k as int])));
                                    assert(fits(after_swap(after_swaps(s0, *item, sub), *item, equipped@[k as int])));
                                }
                            }
                            return false;
                        }
                    }
                }
                k += 1;
            }
            assert(equipped@.subrange(0, equipped.len() as int) == equipped@);
            fits_i64(power + equipment.stat_bonus.power as i64) && fits_i64(defense + equipment.stat_bonus.defense as i64)
                && fits_i64(max_hp + equipment.stat_bonus.max_hp as i64)
        },
        None => match item.potion {
            Some(potion) => fits_i64(stats.hp as i64 + potion.heal_amount as i64),
            None => true,
        },
    }
}

} // verus!

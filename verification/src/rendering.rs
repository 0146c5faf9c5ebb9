//! What is drawn each frame: remembered and visible tiles, visible
//! entities, the quick inventory.
use vstd::prelude::*;

use crate::components::{CombatStats, Color, Point, Position};
use crate::map::{lemma_index_join, on_map, tile_index, xy_idx, GameMap, Tile, MAP_TILES};

verus! {

/// One glyph to draw on the map terminal; a dimmed glyph is drawn in its
/// colour at half brightness.
#[derive(Clone, Copy, Debug, PartialEq, Eq, Structural)]
pub struct TileDraw {
    pub x: i32,
    pub y: i32,
    pub glyph: char,
    pub fg: Color,
    pub bg: Color,
    pub dimmed: bool,
}

/// The decimal digit `d`.
pub open spec fn digit_char(d: nat) -> char {
    if d == 0 {
        '0'
    } else if d == 1 {
        '1'
    } else if d == 2 {
        '2'
    } else if d == 3 {
        '3'
    } else if d == 4 {
        '4'
    } else if d == 5 {
        '5'
    } else if d == 6 {
        '6'
    } else if d == 7 {
        '7'
    } else if d == 8 {
        '8'
    } else {
        '9'
    }
}

/// The decimal digits of `n`, most significant first, without leading zeros.
pub open spec fn digits(n: nat) -> Seq<char>
    decreases n,
{
    if n < 10 {
        seq![digit_char(n)]
    } else {
        digits(n / 10).push(digit_char(n % 10))
    }
}

/// `v` written in decimal, with a minus sign before a negative value.
pub open spec fn decimal(v: int) -> Seq<char> {
    if v < 0 {
        seq!['-'] + digits((-v) as nat)
    } else {
        digits(v as nat)
    }
}

/// The player's status line: `HP: <hit points> / <maximum>`.
pub open spec fn status_line(stats: CombatStats) -> Seq<char> {
    seq!['H', 'P', ':', ' '] + decimal(stats.hp as int) + seq![' ', '/', ' '] + decimal(stats.max_hp as int)
}

fn digit(d: u64) -> (c: char)
    requires
        d < 10,
    ensures
        c == digit_char(d as nat),
{
    if d == 0 {
        '0'
    } else if d == 1 {
        '1'
    } else if d == 2 {
        '2'
    } else if d == 3 {
        '3'
    } else if d == 4 {
        '4'
    } else if d == 5 {
        '5'
    } else if d == 6 {
        '6'
    } else if d == 7 {
        '7'
    } else if d == 8 {
        '8'
    } else {
        '9'
    }
}

fn push_digits(n: u64, out: &mut Vec<char>)
    ensures
        final(out)@ == old(out)@ + digits(n as nat),
    decreases n,
{
    if n < 10 {
        out.push(digit(n));
    } else {
        push_digits(n / 10, out);
        out.push(digit(n % 10));
        assert(out@ == old(out)@ + digits(n as nat)) by {
            assert(digits(n as nat) == digits((n / 10) as nat).push(digit_char((n % 10) as nat)));
            assert(old(out)@ + digits((n / 10) as nat).push(digit_char((n % 10) as nat)) == (old(out)@ + digits((n / 10) as nat)).push(digit_char((n % 10) as nat)));
        }
    }
}

fn push_decimal(v: i32, out: &mut Vec<char>)
    ensures
        final(out)@ == old(out)@ + decimal(v as int),
{
    if v < 0 {
        out.push('-');
        let magnitude: u64 = (-(v as i64)) as u64;
        push_digits(magnitude, out);
        assert(old(out)@ + (seq!['-'] + digits(magnitude as nat)) == old(out)@.push('-') + digits(magnitude as nat));
    } else {
        push_digits(v as u64, out);
    }
}

/// The status line drawn under the map (see `status_line`).
pub fn status_text(stats: &CombatStats) -> (line: Vec<char>)
    ensures
        line@ == status_line(*stats),
{
    let mut line: Vec<char> = Vec::new();
    line.push('H');
    line.push('P');
    line.push(':');
    line.push(' ');
    let ghost head = line@;
    assert(head == seq!['H', 'P', ':', ' ']);
    push_decimal(stats.hp, &mut line);
    let ghost with_hp = line@;
    line.push(' ');
    line.push('/');
    line.push(' ');
    assert(line@ == with_hp + seq![' ', '/', ' ']);
    let ghost with_sep = line@;
    push_decimal(stats.max_hp, &mut line);
    assert(line@ == with_sep + decimal(stats.max_hp as int));
    line
}


/// The point where `p` lies.
pub open spec fn point_of(p: Position) -> Point {
    Point { x: p.x, y: p.y }
}

/// The glyphs drawn for tile `t`: dimmed if it is remembered, then bright
/// if it is in view.
pub open spec fn draws_for_tile(t: Tile, revealed: Seq<bool>, visible: Seq<Point>) -> Seq<TileDraw> {
    let draw = TileDraw {
        x: t.location.x,
        y: t.location.y,
        glyph: t.render.glyph,
        fg: t.render.fg,
        bg: t.render.bg,
        dimmed: true,
    };
    let dim = if revealed[tile_index(t.location.x as int, t.location.y as int)] {
        seq![draw]
    } else {
        Seq::empty()
    };
    if visible.contains(point_of(t.location)) {
        dim.push(TileDraw { dimmed: false, ..draw })
    } else {
        dim
    }
}

/// The glyphs drawn for the tiles of `tiles`, tile by tile.
pub open spec fn draws_for_tiles(tiles: Seq<Tile>, revealed: Seq<bool>, visible: Seq<Point>) -> Seq<TileDraw>
    decreases tiles.len(),
{
    if tiles.len() == 0 {
        Seq::empty()
    } else {
        draws_for_tiles(tiles.drop_last(), revealed, visible) + draws_for_tile(tiles.last(), revealed, visible)
    }
}

/// Whether `visible` holds `p`.
pub fn contains_point(visible: &Vec<Point>, p: Point) -> (found: bool)
    ensures
        found == visible@.contains(p),
{
    let mut i: usize = 0;
    while i < visible.len()
        invariant
            i <= visible.len(),
            forall|k: int| 0 <= k < i ==> visible@[k] != p,
        decreases visible.len() - i,
    {
        if visible[i] == p {
            return true;
        }
        i += 1;
    }
    false
}

/// The glyphs to draw for the map's tiles: each remembered tile dimmed,
/// each tile in view bright over it.
pub fn tile_draws(map: &GameMap, visible: &Vec<Point>) -> (draws: Vec<TileDraw>)
    requires
        map.revealed_tiles.len() == MAP_TILES,
        forall|i: int|
            0 <= i < map.tiles.len() ==> on_map(#[trigger] map.tiles@[i].location.x as int, map.tiles@[i].location.y as int),
    ensures
        draws@ == draws_for_tiles(map.tiles@, map.revealed_tiles@, visible@),
{
    let mut draws: Vec<TileDraw> = Vec::new();
    let mut i: usize = 0;
    while i < map.tiles.len()
        invariant
            i <= map.tiles.len(),
            map.revealed_tiles.len() == MAP_TILES,
            forall|k: int|
                0 <= k < map.tiles.len() ==> on_map(#[trigger] map.tiles@[k].location.x as int, map.tiles@[k].location.y as int),
            draws@ == draws_for_tiles(map.tiles@.subrange(0, i as int), map.revealed_tiles@, visible@),
        decreases map.tiles.len() - i,
    {
        let t = map.tiles[i];
        assert(map.tiles@.subrange(0, i + 1).drop_last() == map.tiles@.subrange(0, i as int));
        assert(map.tiles@.subrange(0, i + 1).last() == t);
        assert(on_map(map.tiles@[i as int].location.x as int, map.tiles@[i as int].location.y as int));
        proof {
            lemma_index_join(t.location.x as int, t.location.y as int);
        }
        let ghost before = draws@;
        let draw = TileDraw {
            x: t.location.x,
            y: t.location.y,
            glyph: t.render.glyph,
            fg: t.render.fg,
            bg: t.render.bg,
            dimmed: true,
        };
        let idx = xy_idx(t.location.x, t.location.y);
        if map.revealed_tiles[idx] {
            draws.push(draw);
        }
        let ghost middle = draws@;
        if contains_point(visible, Point { x: t.location.x, y: t.location.y }) {
            draws.push(TileDraw { dimmed: false, ..draw });
        }
        proof {
            let extra = draws_for_tile(t, map.revealed_tiles@, visible@);
            assert(draws@ == before + extra);
        }
        i += 1;
    }
    assert(map.tiles@.subrange(0, map.tiles.len() as int) == map.tiles@);
    draws
}

/// The positions `k < n` of `s` whose element satisfies `keep`, in order.
pub open spec fn indices_where<T>(s: Seq<T>, keep: spec_fn(T) -> bool, n: int) -> Seq<usize>
    decreases n,
{
    if n <= 0 {
        Seq::empty()
    } else {
        let rest = indices_where(s, keep, n - 1);
        if keep(s[n - 1]) {
            rest.push((n - 1) as usize)
        } else {
            rest
        }
    }
}

/// The entities, among those standing at `positions`, that are in view.
pub fn visible_entities(positions: &Vec<Position>, visible: &Vec<Point>) -> (shown: Vec<usize>)
    ensures
        shown@ == indices_where(positions@, |p: Position| visible@.contains(point_of(p)), positions.len() as int),
{
    let ghost keep = |p: Position| visible@.contains(point_of(p));
    let mut shown: Vec<usize> = Vec::new();
    let mut k: usize = 0;
    while k < positions.len()
        invariant
            k <= positions.len(),
            keep == (|p: Position| visible@.contains(point_of(p))),
            shown@ == indices_where(positions@, keep, k as int),
        decreases positions.len() - k,
    {
        let p = positions[k];
        if contains_point(visible, Point { x: p.x, y: p.y }) {
            shown.push(k);
        }
        k += 1;
    }
    shown
}

/// The entities, among those standing at `positions`, that stand at `(x, y)`:
/// those whose names the tooltip under the mouse shows.
pub fn entities_under(positions: &Vec<Position>, x: i32, y: i32) -> (under: Vec<usize>)
    ensures
        under@ == indices_where(positions@, |p: Position| p.x == x && p.y == y, positions.len() as int),
{
    let ghost keep = |p: Position| p.x == x && p.y == y;
    let mut under: Vec<usize> = Vec::new();
    let mut k: usize = 0;
    while k < positions.len()
        invariant
            k <= positions.len(),
            keep == (|p: Position| p.x == x && p.y == y),
            under@ == indices_where(positions@, keep, k as int),
        decreases positions.len() - k,
    {
        if positions[k].x == x && positions[k].y == y {
            under.push(k);
        }
        k += 1;
    }
    under
}

/// The quick slots shown under the map: among the first three things the
/// player carries, those with a name (`named[k]`), in order.
pub fn quick_inventory_slots(named: &Vec<bool>) -> (slots: Vec<usize>)
    ensures
        slots@ == indices_where(named@, |b: bool| b, if named.len() < 3 { named.len() as int } else { 3 }),
{
    let ghost keep = |b: bool| b;
    let limit = if named.len() < 3 { named.len() } else { 3 };
    let mut slots: Vec<usize> = Vec::new();
    let mut k: usize = 0;
    while k < limit
        invariant
            k <= limit <= named.len(),
            keep == (|b: bool| b),
            slots@ == indices_where(named@, keep, k as int),
        decreases limit - k,
    {
        if named[k] {
            slots.push(k);
        }
        k += 1;
    }
    slots
}

} // verus!

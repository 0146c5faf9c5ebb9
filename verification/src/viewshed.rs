//! What entities see: field-of-view results kept to the map, and the map's
//! memory of the tiles the player has seen.
use vstd::prelude::*;

use crate::components::{Point, Viewshed};
use crate::map::{lemma_index_join, same_but_revealed, tile_index, xy_idx, GameMap, MAP_TILES};

verus! {

/// Updates what entities see.
pub struct VisibilitySystem {}

/// Whether `p` lies within `width` columns and `height` rows from the origin.
pub open spec fn within(p: Point, width: i32, height: i32) -> bool {
    0 <= p.x < width && 0 <= p.y < height
}

/// The points of `s` within the extent, in order.
pub open spec fn kept_within(s: Seq<Point>, width: i32, height: i32) -> Seq<Point>
    decreases s.len(),
{
    if s.len() == 0 {
        Seq::empty()
    } else {
        let rest = kept_within(s.drop_last(), width, height);
        if within(s.last(), width, height) {
            rest.push(s.last())
        } else {
            rest
        }
    }
}

proof fn lemma_kept_within(s: Seq<Point>, width: i32, height: i32)
    ensures
        forall|k: int|
            0 <= k < kept_within(s, width, height).len() ==> within(
                #[trigger] kept_within(s, width, height)[k],
                width,
                height,
            ) && s.contains(kept_within(s, width, height)[k]),
    decreases s.len(),
{
    if s.len() > 0 {
        lemma_kept_within(s.drop_last(), width, height);
        let rest = kept_within(s.drop_last(), width, height);
        assert forall|k: int| 0 <= k < rest.len() implies s.contains(rest[k]) by {
            let w = choose|w: int| 0 <= w < s.drop_last().len() && s.drop_last()[w] == rest[k];
            assert(s[w] == rest[k]);
        }
        assert(s[s.len() - 1] == s.last());
    }
}

/// Keeps the points that lie on a map of `width` by `height`.
pub fn clip_to_map(points: Vec<Point>, width: i32, height: i32) -> (kept: Vec<Point>)
    ensures
        kept@ == kept_within(points@, width, height),
{
    let mut kept: Vec<Point> = Vec::new();
    let mut i: usize = 0;
    while i < points.len()
        invariant
            i <= points.len(),
            kept@ == kept_within(points@.subrange(0, i as int), width, height),
        decreases points.len() - i,
    {
        assert(points@.subrange(0, i + 1).drop_last() == points@.subrange(0, i as int));
        let p = points[i];
        if p.x >= 0 && p.x < width && p.y >= 0 && p.y < height {
            kept.push(p);
        }
        i += 1;
    }
    assert(points@.subrange(0, points.len() as int) == points@);
    kept
}

/// Whether one of `points` lies on the tile at index `i`.
pub open spec fn seen_at(points: Seq<Point>, i: int) -> bool {
    exists|k: int| 0 <= k < points.len() && tile_index(points[k].x as int, points[k].y as int) == i
}

/// The player's view becomes the part of the field of view `fov` that lies
/// on the map, and the map remembers every tile in it as revealed.
pub fn get_visible_tiles(viewshed: &mut Viewshed, map: &mut GameMap, fov: Vec<Point>)
    requires
        old(map).wf(),
    ensures
        final(viewshed).visible_tiles@ == kept_within(fov@, old(map).width, old(map).height),
        final(viewshed).range == old(viewshed).range,
        final(viewshed).dirty == old(viewshed).dirty,
        final(map).wf(),
        same_but_revealed(*final(map), *old(map)),
        forall|i: int|
            0 <= i < MAP_TILES ==> #[trigger] final(map).revealed_tiles@[i] == (old(map).revealed_tiles@[i]
                || seen_at(final(viewshed).visible_tiles@, i)),
{
    let visible = clip_to_map(fov, map.width, map.height);
    proof {
        lemma_kept_within(fov@, map.width, map.height);
    }
    let mut k: usize = 0;
    while k < visible.len()
        invariant
            k <= visible.len(),
            map.wf(),
            same_but_revealed(*map, *old(map)),
            map.width == old(map).width,
            map.height == old(map).height,
            visible@ == kept_within(fov@, map.width, map.height),
            forall|j: int| 0 <= j < visible.len() ==> within(#[trigger] visible@[j], map.width, map.height),
            forall|i: int|
                0 <= i < MAP_TILES ==> #[trigger] map.revealed_tiles@[i] == (old(map).revealed_tiles@[i]
                    || seen_at(visible@.subrange(0, k as int), i)),
        decreases visible.len() - k,
    {
        let p = visible[k];
        assert(within(visible@[k as int], map.width, map.height));
        proof {
            lemma_index_join(p.x as int, p.y as int);
        }
        let idx = xy_idx(p.x, p.y);
        map.revealed_tiles[idx] = true;
        proof {
            let prev = visible@.subrange(0, k as int);
            let next = visible@.subrange(0, k + 1);
            assert forall|i: int| seen_at(next, i) <==> (seen_at(prev, i) || i == idx) by {
                if seen_at(next, i) {
                    let w = choose|w: int| 0 <= w < next.len() && tile_index(next[w].x as int, next[w].y as int) == i;
                    if w < k {
                        assert(prev[w] == next[w]);
                    }
                }
                if seen_at(prev, i) {
                    let w = choose|w: int| 0 <= w < prev.len() && tile_index(prev[w].x as int, prev[w].y as int) == i;
                    assert(prev[w] == next[w]);
                }
                if i == idx {
                    assert(next[k as int] == p);
                }
            }
        }
        k += 1;
    }
    assert(visible@.subrange(0, visible.len() as int) == visible@);
    viewshed.visible_tiles = visible;
}

/// An entity's view becomes the part of the field of view `fov` that lies
/// on the map.
pub fn update_viewsheds(viewshed: &mut Viewshed, map: &GameMap, fov: Vec<Point>)
    ensures
        final(viewshed).visible_tiles@ == kept_within(fov@, map.width, map.height),
        final(viewshed).range == old(viewshed).range,
        final(viewshed).dirty == old(viewshed).dirty,
{
    viewshed.visible_tiles = clip_to_map(fov, map.width, map.height);
}

/// Everything an entity sees lies on its map, and, for the player, every
/// tile in view is remembered as revealed.
pub proof fn law_seen_tiles_are_revealed(
    visible: Seq<Point>,
    fov: Seq<Point>,
    width: i32,
    height: i32,
    revealed_before: Seq<bool>,
    revealed_after: Seq<bool>,
)
    requires
        1 <= width <= crate::MAP_WIDTH,
        1 <= height <= crate::MAP_HEIGHT,
        visible == kept_within(fov, width, height),
        revealed_before.len() == MAP_TILES,
        revealed_after.len() == MAP_TILES,
        forall|i: int|
            0 <= i < MAP_TILES ==> #[trigger] revealed_after[i] == (revealed_before[i] || seen_at(visible, i)),
    ensures
        forall|k: int| 0 <= k < visible.len() ==> within(#[trigger] visible[k], width, height),
        forall|k: int|
            0 <= k < visible.len() ==> #[trigger] revealed_after[tile_index(visible[k].x as int, visible[k].y as int)],
{
    lemma_kept_within(fov, width, height);
    assert forall|k: int| 0 <= k < visible.len() implies #[trigger] revealed_after[tile_index(visible[k].x as int, visible[k].y as int)] by {
        assert(within(visible[k], width, height));
        lemma_index_join(visible[k].x as int, visible[k].y as int);
        assert(seen_at(visible, tile_index(visible[k].x as int, visible[k].y as int)));
    }
}

} // verus!

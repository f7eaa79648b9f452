use vstd::prelude::*;
use crate::grid::{floors_kept, is_floor};
use crate::tile::Tile;

verus! {

/// Whether `a` and `b` are neighbours along one axis.
pub open spec fn adjacent(a: (int, int), b: (int, int)) -> bool {
    ||| a.0 == b.0 && (a.1 == b.1 + 1 || b.1 == a.1 + 1)
    ||| a.1 == b.1 && (a.0 == b.0 + 1 || b.0 == a.0 + 1)
}

/// Whether `path` is a non-empty walk over floor tiles in which each step
/// goes to a neighbour along one axis.
pub open spec fn is_walk(tiles: Seq<Seq<Tile>>, path: Seq<(int, int)>) -> bool {
    &&& path.len() > 0
    &&& forall|i: int| 0 <= i < path.len() ==> is_floor(tiles, (#[trigger] path[i]).0, path[i].1)
    &&& forall|i: int| 0 <= i < path.len() - 1 ==> adjacent(#[trigger] path[i], path[i + 1])
}

/// Whether `path` is a walk that starts at `from` and ends at `to`.
pub open spec fn joins(tiles: Seq<Seq<Tile>>, path: Seq<(int, int)>, from: (int, int), to: (
    int,
    int,
)) -> bool {
    is_walk(tiles, path) && path[0] == from && path[path.len() - 1] == to
}

/// Whether an entity that only steps onto floor tiles, one axis at a time,
/// can get from `from` to `to`.
pub open spec fn reachable(tiles: Seq<Seq<Tile>>, from: (int, int), to: (int, int)) -> bool {
    exists|path: Seq<(int, int)>| joins(tiles, path, from, to)
}

/// A floor tile is reachable from itself.
pub proof fn lemma_reach_self(tiles: Seq<Seq<Tile>>, a: (int, int))
    requires
        is_floor(tiles, a.0, a.1),
    ensures
        reachable(tiles, a, a),
{
    let path = seq![a];
    assert(joins(tiles, path, a, a));
}

/// A walk can be extended by one step onto a neighbouring floor tile.
pub proof fn lemma_reach_step(tiles: Seq<Seq<Tile>>, a: (int, int), b: (int, int), c: (int, int))
    requires
        reachable(tiles, a, b),
        adjacent(b, c),
        is_floor(tiles, c.0, c.1),
    ensures
        reachable(tiles, a, c),
{
    let path = choose|path: Seq<(int, int)>| joins(tiles, path, a, b);
    let longer = path.push(c);
    assert forall|i: int| 0 <= i < longer.len() - 1 implies adjacent(
        #[trigger] longer[i],
        longer[i + 1],
    ) by {
        if i < path.len() - 1 {
            assert(adjacent(path[i], path[i + 1]));
        }
    }
    assert(joins(tiles, longer, a, c));
}

/// Walks can be chained.
pub proof fn lemma_reach_trans(tiles: Seq<Seq<Tile>>, a: (int, int), b: (int, int), c: (int, int))
    requires
        reachable(tiles, a, b),
        reachable(tiles, b, c),
    ensures
        reachable(tiles, a, c),
{
    let first = choose|path: Seq<(int, int)>| joins(tiles, path, a, b);
    let second = choose|path: Seq<(int, int)>| joins(tiles, path, b, c);
    let rest = second.subrange(1, second.len() as int);
    let whole = first + rest;
    assert forall|i: int| 0 <= i < whole.len() implies is_floor(
        tiles,
        (#[trigger] whole[i]).0,
        whole[i].1,
    ) by {
        if i < first.len() {
            assert(whole[i] == first[i]);
        } else {
            assert(whole[i] == second[i - first.len() + 1]);
        }
    }
    assert forall|i: int| 0 <= i < whole.len() - 1 implies adjacent(
        #[trigger] whole[i],
        whole[i + 1],
    ) by {
        if i < first.len() - 1 {
            assert(adjacent(first[i], first[i + 1]));
        } else {
            let k = i - first.len() + 1;
            assert(adjacent(second[k], second[k + 1]));
            assert(whole[i + 1] == second[k + 1]);
            if i == first.len() - 1 {
                assert(whole[i] == first[first.len() - 1]);
            } else {
                assert(whole[i] == second[k]);
            }
        }
    }
    assert(joins(tiles, whole, a, c));
}

/// Opening more tiles never cuts a walk.
pub proof fn lemma_reach_kept(
    before: Seq<Seq<Tile>>,
    after: Seq<Seq<Tile>>,
    a: (int, int),
    b: (int, int),
)
    requires
        reachable(before, a, b),
        floors_kept(before, after),
    ensures
        reachable(after, a, b),
{
    let path = choose|path: Seq<(int, int)>| joins(before, path, a, b);
    assert forall|i: int| 0 <= i < path.len() implies is_floor(
        after,
        (#[trigger] path[i]).0,
        path[i].1,
    ) by {
        assert(is_floor(before, path[i].0, path[i].1));
    }
    assert(joins(after, path, a, b));
}

/// The ends of a horizontal run of floor tiles are reachable from each other.
pub proof fn lemma_reach_along_row(tiles: Seq<Seq<Tile>>, xa: int, xb: int, y: int)
    requires
        forall|x: int| (xa <= x <= xb || xb <= x <= xa) ==> #[trigger] is_floor(tiles, x, y),
    ensures
        reachable(tiles, (xa, y), (xb, y)),
    decreases (if xa <= xb { xb - xa } else { xa - xb }),
{
    if xa == xb {
        assert(is_floor(tiles, xa, y));
        lemma_reach_self(tiles, (xa, y));
    } else {
        let before = if xa < xb { xb - 1 } else { xb + 1 };
        lemma_reach_along_row(tiles, xa, before, y);
        assert(is_floor(tiles, xb, y));
        lemma_reach_step(tiles, (xa, y), (before, y), (xb, y));
    }
}

/// The ends of a vertical run of floor tiles are reachable from each other.
pub proof fn lemma_reach_along_column(tiles: Seq<Seq<Tile>>, ya: int, yb: int, x: int)
    requires
        forall|y: int| (ya <= y <= yb || yb <= y <= ya) ==> #[trigger] is_floor(tiles, x, y),
    ensures
        reachable(tiles, (x, ya), (x, yb)),
    decreases (if ya <= yb { yb - ya } else { ya - yb }),
{
    if ya == yb {
        assert(is_floor(tiles, x, ya));
        lemma_reach_self(tiles, (x, ya));
    } else {
        let before = if ya < yb { yb - 1 } else { yb + 1 };
        lemma_reach_along_column(tiles, ya, before, x);
        assert(is_floor(tiles, x, yb));
        lemma_reach_step(tiles, (x, ya), (x, before), (x, yb));
    }
}

} // verus!

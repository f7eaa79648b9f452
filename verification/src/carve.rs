use vstd::prelude::*;
use crate::grid::{dug, floors_kept, is_floor, lemma_dug, memory_kept, pristine, rectangular, Grid};
use crate::reach::{
    lemma_reach_along_column, lemma_reach_along_row, lemma_reach_trans, reachable,
};
use crate::rect::Rect;
use crate::tile::Tile;

verus! {

/// `tiles` with the inside of `room` turned into floor. The rectangle's own
/// border stays as it was, so the opened region is one tile smaller on each
/// side than the rectangle.
pub open spec fn room_dug(tiles: Seq<Seq<Tile>>, room: Rect) -> Seq<Seq<Tile>> {
    dug(tiles, room.x1 + 1, room.x2 - 1, room.y1 + 1, room.y2 - 1)
}

/// `tiles` with the horizontal run between columns `xa` and `xb` turned into
/// floor on row `y`, both ends included.
pub open spec fn row_dug(tiles: Seq<Seq<Tile>>, xa: int, xb: int, y: int) -> Seq<Seq<Tile>> {
    dug(tiles, if xa <= xb { xa } else { xb }, if xa <= xb { xb } else { xa }, y, y)
}

/// `tiles` with the vertical run between rows `ya` and `yb` turned into floor
/// on column `x`, both ends included.
pub open spec fn column_dug(tiles: Seq<Seq<Tile>>, ya: int, yb: int, x: int) -> Seq<Seq<Tile>> {
    dug(tiles, x, x, if ya <= yb { ya } else { yb }, if ya <= yb { yb } else { ya })
}

/// `tiles` with an L-shaped corridor from `from` to `to`. With
/// `horizontal_first` the corridor leaves `from` along its row and turns at
/// `(to.0, from.1)`; otherwise it leaves along its column and turns at
/// `(from.0, to.1)`.
pub open spec fn linked(
    tiles: Seq<Seq<Tile>>,
    from: (int, int),
    to: (int, int),
    horizontal_first: bool,
) -> Seq<Seq<Tile>> {
    if horizontal_first {
        column_dug(row_dug(tiles, from.0, to.0, from.1), from.1, to.1, to.0)
    } else {
        row_dug(column_dug(tiles, from.1, to.1, from.0), from.0, to.0, to.1)
    }
}

/// A corridor keeps the grid's size and every floor tile, and joins its two
/// ends when both lie on the grid.
pub proof fn lemma_linked(
    tiles: Seq<Seq<Tile>>,
    from: (int, int),
    to: (int, int),
    horizontal_first: bool,
    width: int,
    height: int,
)
    requires
        rectangular(tiles, width, height),
    ensures
        rectangular(linked(tiles, from, to, horizontal_first), width, height),
        floors_kept(tiles, linked(tiles, from, to, horizontal_first)),
        pristine(tiles) ==> pristine(linked(tiles, from, to, horizontal_first)),
        0 <= from.0 < width && 0 <= from.1 < height && 0 <= to.0 < width && 0 <= to.1 < height
            ==> reachable(linked(tiles, from, to, horizontal_first), from, to),
{
    let after = linked(tiles, from, to, horizontal_first);
    let x_lo = if from.0 <= to.0 { from.0 } else { to.0 };
    let x_hi = if from.0 <= to.0 { to.0 } else { from.0 };
    let y_lo = if from.1 <= to.1 { from.1 } else { to.1 };
    let y_hi = if from.1 <= to.1 { to.1 } else { from.1 };
    let on_grid = 0 <= from.0 < width && 0 <= from.1 < height && 0 <= to.0 < width && 0 <= to.1
        < height;
    if horizontal_first {
        let first = row_dug(tiles, from.0, to.0, from.1);
        lemma_dug(tiles, x_lo, x_hi, from.1, from.1, width, height);
        lemma_dug(first, to.0, to.0, y_lo, y_hi, width, height);
        assert(floors_kept(tiles, after)) by {
            assert forall|x: int, y: int| #[trigger] is_floor(tiles, x, y) implies is_floor(
                after,
                x,
                y,
            ) by {
                assert(is_floor(first, x, y));
            }
        }
        if on_grid {
            assert forall|x: int| (from.0 <= x <= to.0 || to.0 <= x <= from.0)
                implies #[trigger] is_floor(after, x, from.1) by {
                assert(is_floor(first, x, from.1));
            }
            lemma_reach_along_row(after, from.0, to.0, from.1);
            assert forall|y: int| (from.1 <= y <= to.1 || to.1 <= y <= from.1)
                implies #[trigger] is_floor(after, to.0, y) by {}
            lemma_reach_along_column(after, from.1, to.1, to.0);
            lemma_reach_trans(after, from, (to.0, from.1), to);
        }
    } else {
        let first = column_dug(tiles, from.1, to.1, from.0);
        lemma_dug(tiles, from.0, from.0, y_lo, y_hi, width, height);
        lemma_dug(first, x_lo, x_hi, to.1, to.1, width, height);
        assert(floors_kept(tiles, after)) by {
            assert forall|x: int, y: int| #[trigger] is_floor(tiles, x, y) implies is_floor(
                after,
                x,
                y,
            ) by {
                assert(is_floor(first, x, y));
            }
        }
        if on_grid {
            assert forall|y: int| (from.1 <= y <= to.1 || to.1 <= y <= from.1)
                implies #[trigger] is_floor(after, from.0, y) by {
                assert(is_floor(first, from.0, y));
            }
            lemma_reach_along_column(after, from.1, to.1, from.0);
            assert forall|x: int| (from.0 <= x <= to.0 || to.0 <= x <= from.0)
                implies #[trigger] is_floor(after, x, to.1) by {}
            lemma_reach_along_row(after, from.0, to.0, to.1);
            lemma_reach_trans(after, from, (from.0, to.1), to);
        }
    }
}

/// Opens the inside of `room`: every tile strictly between its borders.
/// Whatever part of the room lies off the grid is passed over.
pub fn create_room(room: Rect, map: &mut Grid)
    requires
        old(map).wf(),
    ensures
        final(map).wf(),
        final(map).width() == old(map).width(),
        final(map).height() == old(map).height(),
        final(map)@ == room_dug(old(map)@, room),
        memory_kept(old(map)@, final(map)@),
{
    if room.x1 == i32::MAX || room.y1 == i32::MAX || room.x2 == i32::MIN || room.y2 == i32::MIN {
        assert(map@ =~~= room_dug(map@, room));
    } else {
        map.dig(room.x1 + 1, room.x2 - 1, room.y1 + 1, room.y2 - 1);
    }
}

/// Opens the horizontal corridor between columns `x1` and `x2` on row `y`,
/// both ends included, in whichever order they are given.
pub fn create_h_tunnel(x1: i32, x2: i32, y: i32, map: &mut Grid)
    requires
        old(map).wf(),
    ensures
        final(map).wf(),
        final(map).width() == old(map).width(),
        final(map).height() == old(map).height(),
        final(map)@ == row_dug(old(map)@, x1 as int, x2 as int, y as int),
        memory_kept(old(map)@, final(map)@),
{
    if x1 <= x2 {
        map.dig(x1, x2, y, y);
    } else {
        map.dig(x2, x1, y, y);
    }
}

/// Opens the vertical corridor between rows `y1` and `y2` on column `x`,
/// both ends included, in whichever order they are given.
pub fn create_v_tunnel(y1: i32, y2: i32, x: i32, map: &mut Grid)
    requires
        old(map).wf(),
    ensures
        final(map).wf(),
        final(map).width() == old(map).width(),
        final(map).height() == old(map).height(),
        final(map)@ == column_dug(old(map)@, y1 as int, y2 as int, x as int),
        memory_kept(old(map)@, final(map)@),
{
    if y1 <= y2 {
        map.dig(x, x, y1, y2);
    } else {
        map.dig(x, x, y2, y1);
    }
}

} // verus!

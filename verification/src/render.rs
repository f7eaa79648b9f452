use vstd::prelude::*;
use crate::fov::{Sight, VisibilityTracker};
use crate::grid::Grid;
use crate::object::{CellWrite, Object};
use crate::tile::Tile;

verus! {

/// How a tile's background is to be drawn.
#[derive(Clone, Copy, Debug, PartialEq, Eq, Structural)]
pub enum Shade {
    /// Never seen: left blank.
    Unseen,
    /// A wall remembered from earlier.
    DarkWall,
    /// Floor remembered from earlier.
    DarkGround,
    /// A wall in view.
    LightWall,
    /// Floor in view.
    LightGround,
}

/// One frame's worth of drawing: the characters to write, in order, and
/// the background of every tile, column by column.
pub struct Frame {
    pub cells: Vec<CellWrite>,
    pub shades: Vec<Vec<Shade>>,
}

/// The background of `tile`: lit when it is in view, dark when it is only
/// remembered, blank when it was never seen; a tile counts as wall when it
/// blocks sight.
pub open spec fn shade_of(tile: Tile, visible: bool) -> Shade {
    if visible {
        if tile.block_sight {
            Shade::LightWall
        } else {
            Shade::LightGround
        }
    } else if tile.explored {
        if tile.block_sight {
            Shade::DarkWall
        } else {
            Shade::DarkGround
        }
    } else {
        Shade::Unseen
    }
}

/// The characters written for `objects`, in their order: one for each
/// object that stands on a visible tile, none for the others.
pub open spec fn sprites(objects: Seq<Object>, sight: Sight) -> Seq<CellWrite>
    decreases objects.len(),
{
    if objects.len() == 0 {
        Seq::empty()
    } else {
        let before = sprites(objects.drop_last(), sight);
        if sight.visible(objects.last().x as int, objects.last().y as int) {
            before.push(objects.last().drawn())
        } else {
            before
        }
    }
}

/// Executable form of [`shade_of`].
pub fn shade(tile: &Tile, visible: bool) -> (s: Shade)
    ensures
        s == shade_of(*tile, visible),
{
    if visible {
        if tile.block_sight {
            Shade::LightWall
        } else {
            Shade::LightGround
        }
    } else if tile.explored {
        if tile.block_sight {
            Shade::DarkWall
        } else {
            Shade::DarkGround
        }
    } else {
        Shade::Unseen
    }
}

/// Works out what to draw for the current state of the game: every object
/// in view, and the background of every tile of the map.
pub fn render_all(objects: &Vec<Object>, map: &Grid, tracker: &VisibilityTracker) -> (frame:
    Frame)
    requires
        map.wf(),
    ensures
        frame.cells@ == sprites(objects@, tracker@),
        frame.shades@.len() == map.width(),
        forall|x: int|
            0 <= x < map.width() ==> (#[trigger] frame.shades@[x])@.len() == map.height(),
        forall|x: int, y: int|
            0 <= x < map.width() && 0 <= y < map.height() ==> #[trigger] frame.shades@[x]@[y]
                == shade_of(map@[x][y], tracker@.visible(x, y)),
{
    let mut cells: Vec<CellWrite> = Vec::new();
    let mut i: usize = 0;
    while i < objects.len()
        invariant
            0 <= i <= objects@.len(),
            cells@ == sprites(objects@.take(i as int), tracker@),
        decreases objects@.len() - i,
    {
        assert(objects@.take(i + 1).drop_last() =~= objects@.take(i as int));
        let object = &objects[i];
        if tracker.is_in_fov(object.x, object.y) {
            cells.push(object.draw());
        }
        i += 1;
    }
    assert(objects@.take(i as int) =~= objects@);
    let width = map.width();
    let height = map.height();
    let mut shades: Vec<Vec<Shade>> = Vec::new();
    let mut x: i32 = 0;
    while x < width
        invariant
            map.wf(),
            width == map.width(),
            height == map.height(),
            0 <= x <= width,
            shades@.len() == x,
            forall|c: int| 0 <= c < x ==> (#[trigger] shades@[c])@.len() == height,
            forall|c: int, r: int|
                0 <= c < x && 0 <= r < height ==> #[trigger] shades@[c]@[r] == shade_of(
                    map@[c][r],
                    tracker@.visible(c, r),
                ),
        decreases width - x,
    {
        let mut column: Vec<Shade> = Vec::new();
        let mut y: i32 = 0;
        while y < height
            invariant
                map.wf(),
                width == map.width(),
                height == map.height(),
                0 <= x < width,
                0 <= y <= height,
                column@.len() == y,
                forall|r: int|
                    0 <= r < y ==> #[trigger] column@[r] == shade_of(
                        map@[x as int][r],
                        tracker@.visible(x as int, r),
                    ),
            decreases height - y,
        {
            let tile = map.tile(x, y);
            column.push(shade(&tile, tracker.is_in_fov(x, y)));
            y += 1;
        }
        shades.push(column);
        x += 1;
    }
    Frame { cells, shades }
}

} // verus!

use vstd::prelude::*;
use crate::grid::{is_floor, Grid};
use crate::reach::adjacent;
use crate::tile::Tile;

verus! {

/// A display colour, by its red, green and blue parts.
#[derive(Clone, Copy, Debug, PartialEq, Eq, Structural)]
pub struct Color {
    pub r: u8,
    pub g: u8,
    pub b: u8,
}

/// One character to be written to the console at `(x, y)`. With a
/// `foreground` the console's drawing colour is set to it first; without
/// one the colour in force is used.
#[derive(Clone, Copy, Debug, PartialEq, Eq)]
pub struct CellWrite {
    pub x: i32,
    pub y: i32,
    pub symbol: char,
    pub foreground: Option<Color>,
}

/// Anything that stands on the map and is shown as one character: the
/// player, a monster, an item.
#[derive(Clone, Copy, Debug, PartialEq, Eq)]
pub struct Object {
    pub x: i32,
    pub y: i32,
    pub char: char,
    pub color: Color,
}

/// Whether `(dx, dy)` is no step at all or one step along a single axis.
pub open spec fn unit_step(dx: int, dy: int) -> bool {
    (dx == 0 && -1 <= dy <= 1) || (dy == 0 && -1 <= dx <= 1)
}

impl Object {
    /// An object at `(x, y)` shown as `char` in `color`.
    pub fn new(x: i32, y: i32, char: char, color: Color) -> (object: Object)
        ensures
            object == (Object { x, y, char, color }),
    {
        Object { x: x, y: y, char: char, color: color }
    }

    /// Where the object stands.
    pub open spec fn position(self) -> (int, int) {
        (self.x as int, self.y as int)
    }

    /// The object after an attempt to move it by `(dx, dy)`: moved when the
    /// destination is a tile of the grid that is not blocked, and left where
    /// it is otherwise.
    pub open spec fn moved_by(self, dx: int, dy: int, tiles: Seq<Seq<Tile>>) -> Object {
        if is_floor(tiles, self.x + dx, self.y + dy) {
            Object {
                x: (self.x + dx) as i32,
                y: (self.y + dy) as i32,
                char: self.char,
                color: self.color,
            }
        } else {
            self
        }
    }

    /// Moves the object by `(dx, dy)` unless the destination is blocked or
    /// lies outside the grid; then it stays where it is.
    pub fn move_by(&mut self, dx: i32, dy: i32, map: &Grid)
        requires
            map.wf(),
        ensures
            *final(self) == old(self).moved_by(dx as int, dy as int, map@),
            final(self).position() == old(self).position() || is_floor(
                map@,
                final(self).x as int,
                final(self).y as int,
            ),
            unit_step(dx as int, dy as int) ==> final(self).position() == old(self).position()
                || adjacent(old(self).position(), final(self).position()),
    {
        let x: i64 = self.x as i64 + dx as i64;
        let y: i64 = self.y as i64 + dy as i64;
        if i32::MIN as i64 <= x && x <= i32::MAX as i64 && i32::MIN as i64 <= y && y
            <= i32::MAX as i64 {
            if !map.is_blocked(x as i32, y as i32) {
                self.x = x as i32;
                self.y = y as i32;
            }
        }
    }

    /// What drawing the object writes to the console: its character, in its
    /// colour, where it stands.
    pub open spec fn drawn(self) -> CellWrite {
        CellWrite { x: self.x, y: self.y, symbol: self.char, foreground: Some(self.color) }
    }

    /// What erasing the object writes to the console: a blank where it
    /// stands, in whatever colour is in force.
    pub open spec fn erased(self) -> CellWrite {
        CellWrite { x: self.x, y: self.y, symbol: ' ', foreground: None }
    }

    /// Describes the console write that draws the object.
    pub fn draw(&self) -> (cell: CellWrite)
        ensures
            cell == self.drawn(),
    {
        CellWrite { x: self.x, y: self.y, symbol: self.char, foreground: Some(self.color) }
    }

    /// Describes the console write that erases the object.
    pub fn clear(&self) -> (cell: CellWrite)
        ensures
            cell == self.erased(),
    {
        CellWrite { x: self.x, y: self.y, symbol: ' ', foreground: None }
    }
}

/// An attempt to move by at most one step along one axis leaves the object
/// where it was or on one of its four neighbours, and a tile it went to is
/// never blocked. An object that stood on floor still stands on floor,
/// whatever the step.
pub proof fn lemma_move_is_safe(object: Object, dx: int, dy: int, map: Grid)
    requires
        map.wf(),
    ensures
        unit_step(dx, dy) ==> object.moved_by(dx, dy, map@).position() == object.position() || (
        adjacent(object.position(), object.moved_by(dx, dy, map@).position()) && is_floor(
            map@,
            object.moved_by(dx, dy, map@).x as int,
            object.moved_by(dx, dy, map@).y as int,
        )),
        is_floor(map@, object.x as int, object.y as int) ==> is_floor(
            map@,
            object.moved_by(dx, dy, map@).x as int,
            object.moved_by(dx, dy, map@).y as int,
        ),
{
}

} // verus!

use vstd::prelude::*;
use crate::carve::{lemma_linked, linked, room_dug};
use crate::grid::{floors_kept, is_floor, lemma_dug, pristine, rectangular, walled};
use crate::reach::{lemma_reach_kept, lemma_reach_self, lemma_reach_trans, reachable};
use crate::rect::Rect;
use crate::rng::{advance, flip, pick};
use crate::tile::Tile;

verus! {

/// Whether `room` lies on a grid of the given size, its border included.
pub open spec fn fits(room: Rect, width: int, height: int) -> bool {
    0 <= room.x1 <= room.x2 < width && 0 <= room.y1 <= room.y2 < height
}

/// Whether `room` has an inside: at least one tile between its borders on
/// each axis.
pub open spec fn roomy(room: Rect) -> bool {
    room.x2 - room.x1 >= 2 && room.y2 - room.y1 >= 2
}

/// Whether every room lies on a grid of the given size.
pub open spec fn contained(rooms: Seq<Rect>, width: int, height: int) -> bool {
    forall|i: int| 0 <= i < rooms.len() ==> fits(#[trigger] rooms[i], width, height)
}

/// Whether no two rooms overlap, borders included.
pub open spec fn apart(rooms: Seq<Rect>) -> bool {
    forall|i: int, j: int|
        0 <= i < j < rooms.len() ==> !(#[trigger] rooms[i]).intersects(#[trigger] rooms[j])
}

/// Whether `room` overlaps one of `rooms`, borders included.
pub open spec fn overlaps_any(rooms: Seq<Rect>, room: Rect) -> bool {
    exists|i: int| 0 <= i < rooms.len() && room.intersects(#[trigger] rooms[i])
}

/// What a map builder has laid out: the tiles, the rooms accepted so far in
/// the order of their acceptance, and the player's starting position.
pub struct Layout {
    pub tiles: Seq<Seq<Tile>>,
    pub rooms: Seq<Rect>,
    pub start: (int, int),
}

impl Layout {
    /// The layout before any room is placed: walls everywhere, and the
    /// starting position at the origin.
    pub open spec fn blank(width: int, height: int) -> Layout {
        Layout { tiles: walled(width, height), rooms: Seq::empty(), start: (0, 0) }
    }

    /// The layout after `room` has been offered.
    ///
    /// A room that overlaps an accepted one changes nothing. Otherwise its
    /// inside is opened; the first room gives the starting position, and
    /// every later one is joined to the centre of the room accepted before
    /// it by an L-shaped corridor.
    pub open spec fn place(self, room: Rect, horizontal_first: bool) -> Layout {
        if overlaps_any(self.rooms, room) {
            self
        } else if self.rooms.len() == 0 {
            Layout {
                tiles: room_dug(self.tiles, room),
                rooms: self.rooms.push(room),
                start: room.spec_center(),
            }
        } else {
            Layout {
                tiles: linked(
                    room_dug(self.tiles, room),
                    self.rooms.last().spec_center(),
                    room.spec_center(),
                    horizontal_first,
                ),
                rooms: self.rooms.push(room),
                start: self.start,
            }
        }
    }

    /// The tiles form a grid of the given size, every room lies on it, no
    /// two rooms overlap, and the starting position is the centre of the
    /// first room, or the origin while there is none.
    pub open spec fn orderly(self, width: int, height: int) -> bool {
        &&& rectangular(self.tiles, width, height)
        &&& contained(self.rooms, width, height)
        &&& apart(self.rooms)
        &&& self.start == (if self.rooms.len() == 0 {
            (0int, 0int)
        } else {
            self.rooms[0].spec_center()
        })
    }

    /// The centre of every room can be reached from the starting position
    /// over floor tiles.
    pub open spec fn connected(self) -> bool {
        forall|i: int|
            0 <= i < self.rooms.len() ==> reachable(
                self.tiles,
                self.start,
                (#[trigger] self.rooms[i]).spec_center(),
            )
    }
}

/// Whatever room is offered, the accepted rooms stay apart: a room that
/// touches an accepted one, even along a single edge, is not accepted.
pub proof fn lemma_place_keeps_apart(layout: Layout, room: Rect, horizontal_first: bool)
    requires
        apart(layout.rooms),
    ensures
        apart(layout.place(room, horizontal_first).rooms),
{
    if !overlaps_any(layout.rooms, room) {
        let rooms = layout.rooms.push(room);
        assert forall|i: int, j: int| 0 <= i < j < rooms.len() implies !(
        #[trigger] rooms[i]).intersects(#[trigger] rooms[j]) by {
            if j == layout.rooms.len() {
                assert(!room.intersects(layout.rooms[i]));
            } else {
                assert(!layout.rooms[i].intersects(layout.rooms[j]));
            }
        }
    }
}

/// Offering a room that lies on the grid keeps the layout orderly: the
/// inside of every accepted room lies strictly within the grid, and no
/// tile off the grid is ever opened. Floor stays floor, and tiles that were
/// pristine stay so.
pub proof fn lemma_place_keeps_order(
    layout: Layout,
    room: Rect,
    horizontal_first: bool,
    width: int,
    height: int,
)
    requires
        layout.orderly(width, height),
        fits(room, width, height),
    ensures
        layout.place(room, horizontal_first).orderly(width, height),
        floors_kept(layout.tiles, layout.place(room, horizontal_first).tiles),
        pristine(layout.tiles) ==> pristine(layout.place(room, horizontal_first).tiles),
        forall|i: int, x: int, y: int|
            0 <= i < layout.place(room, horizontal_first).rooms.len() && #[trigger] layout.place(
                room,
                horizontal_first,
            ).rooms[i].encloses(x, y) ==> 0 < x < width - 1 && 0 < y < height - 1,
        forall|x: int, y: int| #[trigger]
            is_floor(layout.place(room, horizontal_first).tiles, x, y) ==> 0 <= x < width && 0 <= y
                < height,
{
    let after = layout.place(room, horizontal_first);
    lemma_place_keeps_apart(layout, room, horizontal_first);
    if !overlaps_any(layout.rooms, room) {
        let opened = room_dug(layout.tiles, room);
        lemma_dug(
            layout.tiles,
            room.x1 + 1,
            room.x2 - 1,
            room.y1 + 1,
            room.y2 - 1,
            width,
            height,
        );
        if layout.rooms.len() > 0 {
            lemma_linked(
                opened,
                layout.rooms.last().spec_center(),
                room.spec_center(),
                horizontal_first,
                width,
                height,
            );
            assert forall|x: int, y: int| #[trigger] is_floor(layout.tiles, x, y) implies is_floor(
                after.tiles,
                x,
                y,
            ) by {
                assert(is_floor(opened, x, y));
            }
        }
        assert forall|i: int| 0 <= i < after.rooms.len() implies fits(
            #[trigger] after.rooms[i],
            width,
            height,
        ) by {
            if i < layout.rooms.len() {
                assert(fits(layout.rooms[i], width, height));
            }
        }
    }
    assert forall|i: int, x: int, y: int|
        0 <= i < after.rooms.len() && #[trigger] after.rooms[i].encloses(x, y) implies 0 < x
        < width - 1 && 0 < y < height - 1 by {
        assert(fits(after.rooms[i], width, height));
    }
    assert forall|x: int, y: int| #[trigger] is_floor(after.tiles, x, y) implies 0 <= x < width
        && 0 <= y < height by {
        assert(after.tiles[x].len() == height);
    }
}

/// In an orderly layout whose room centres can all be reached from the
/// starting position, offering a room that lies on the grid and has an
/// inside leaves every room centre reachable, the new one included.
pub proof fn lemma_place_keeps_connected(
    layout: Layout,
    room: Rect,
    horizontal_first: bool,
    width: int,
    height: int,
)
    requires
        layout.orderly(width, height),
        layout.connected(),
        fits(room, width, height),
        roomy(room),
    ensures
        layout.place(room, horizontal_first).connected(),
{
    let after = layout.place(room, horizontal_first);
    lemma_place_keeps_order(layout, room, horizontal_first, width, height);
    if !overlaps_any(layout.rooms, room) {
        let opened = room_dug(layout.tiles, room);
        let centre = room.spec_center();
        lemma_dug(
            layout.tiles,
            room.x1 + 1,
            room.x2 - 1,
            room.y1 + 1,
            room.y2 - 1,
            width,
            height,
        );
        assert(room.encloses(centre.0, centre.1));
        assert(is_floor(opened, centre.0, centre.1));
        if layout.rooms.len() == 0 {
            lemma_reach_self(after.tiles, centre);
        } else {
            let last = layout.rooms.last();
            let prev = last.spec_center();
            assert(fits(last, width, height));
            lemma_linked(opened, prev, centre, horizontal_first, width, height);
            assert(reachable(layout.tiles, layout.start, prev));
            lemma_reach_kept(layout.tiles, after.tiles, layout.start, prev);
            lemma_reach_trans(after.tiles, layout.start, prev, centre);
            assert forall|i: int| 0 <= i < after.rooms.len() implies reachable(
                after.tiles,
                after.start,
                (#[trigger] after.rooms[i]).spec_center(),
            ) by {
                if i < layout.rooms.len() {
                    assert(reachable(layout.tiles, layout.start, layout.rooms[i].spec_center()));
                    lemma_reach_kept(
                        layout.tiles,
                        after.tiles,
                        layout.start,
                        layout.rooms[i].spec_center(),
                    );
                }
            }
        }
    }
}

/// The room that a generator in state `state` draws: first the width and
/// the height from `[room_min_size, room_max_size]`, then the corner from
/// the positions at which a room of that size lies on the grid.
pub open spec fn drawn_room(
    state: u64,
    width: int,
    height: int,
    room_min_size: int,
    room_max_size: int,
) -> Rect {
    let w = pick(state, room_min_size, room_max_size);
    let h = pick(advance(state), room_min_size, room_max_size);
    let x = pick(advance(advance(state)), 0, width - w - 1);
    let y = pick(advance(advance(advance(state))), 0, height - h - 1);
    Rect { x1: x as i32, y1: y as i32, x2: (x + w) as i32, y2: (y + h) as i32 }
}

/// A drawn room lies on the grid, and its sides measure between
/// `room_min_size` and `room_max_size`.
pub proof fn lemma_drawn_room(
    state: u64,
    width: int,
    height: int,
    room_min_size: int,
    room_max_size: int,
)
    requires
        0 <= room_min_size <= room_max_size,
        room_max_size < width <= i32::MAX,
        room_max_size < height <= i32::MAX,
    ensures
        fits(drawn_room(state, width, height, room_min_size, room_max_size), width, height),
        room_min_size <= drawn_room(state, width, height, room_min_size, room_max_size).x2
            - drawn_room(state, width, height, room_min_size, room_max_size).x1 <= room_max_size,
        room_min_size <= drawn_room(state, width, height, room_min_size, room_max_size).y2
            - drawn_room(state, width, height, room_min_size, room_max_size).y1 <= room_max_size,
{
}

/// The layout and the generator state after one more room has been drawn
/// and offered: four draws for the room, then the coin that picks the
/// corridor's shape.
pub open spec fn attempt(
    layout: Layout,
    state: u64,
    width: int,
    height: int,
    room_min_size: int,
    room_max_size: int,
) -> (Layout, u64) {
    let room = drawn_room(state, width, height, room_min_size, room_max_size);
    let s4 = advance(advance(advance(advance(state))));
    (layout.place(room, flip(s4)), advance(s4))
}

/// The layout and the generator state after `attempts` rooms have been
/// drawn and offered in turn, starting from `layout` and `state`.
pub open spec fn grown(
    layout: Layout,
    state: u64,
    attempts: nat,
    width: int,
    height: int,
    room_min_size: int,
    room_max_size: int,
) -> (Layout, u64)
    decreases attempts,
{
    if attempts == 0 {
        (layout, state)
    } else {
        let before = grown(
            layout,
            state,
            (attempts - 1) as nat,
            width,
            height,
            room_min_size,
            room_max_size,
        );
        attempt(before.0, before.1, width, height, room_min_size, room_max_size)
    }
}

/// Drawing and offering any number of rooms keeps an orderly layout
/// orderly: every accepted room lies on the grid and no two overlap. A run
/// adds at most one room per attempt, keeps floor tiles floor and pristine
/// tiles pristine.
pub proof fn lemma_grown_keeps_order(
    layout: Layout,
    state: u64,
    attempts: nat,
    width: int,
    height: int,
    room_min_size: int,
    room_max_size: int,
)
    requires
        layout.orderly(width, height),
        0 <= room_min_size <= room_max_size,
        room_max_size < width <= i32::MAX,
        room_max_size < height <= i32::MAX,
    ensures
        grown(layout, state, attempts, width, height, room_min_size, room_max_size).0.orderly(
            width,
            height,
        ),
        grown(layout, state, attempts, width, height, room_min_size, room_max_size).0.rooms.len()
            <= layout.rooms.len() + attempts,
        floors_kept(
            layout.tiles,
            grown(layout, state, attempts, width, height, room_min_size, room_max_size).0.tiles,
        ),
        pristine(layout.tiles) ==> pristine(
            grown(layout, state, attempts, width, height, room_min_size, room_max_size).0.tiles,
        ),
    decreases attempts,
{
    if attempts > 0 {
        let before = grown(
            layout,
            state,
            (attempts - 1) as nat,
            width,
            height,
            room_min_size,
            room_max_size,
        );
        lemma_grown_keeps_order(
            layout,
            state,
            (attempts - 1) as nat,
            width,
            height,
            room_min_size,
            room_max_size,
        );
        let room = drawn_room(before.1, width, height, room_min_size, room_max_size);
        let coin = flip(advance(advance(advance(advance(before.1)))));
        lemma_drawn_room(before.1, width, height, room_min_size, room_max_size);
        lemma_place_keeps_order(before.0, room, coin, width, height);
        let after = before.0.place(room, coin);
        assert(after == grown(
            layout,
            state,
            attempts,
            width,
            height,
            room_min_size,
            room_max_size,
        ).0);
        assert forall|x: int, y: int| #[trigger] is_floor(layout.tiles, x, y) implies is_floor(
            after.tiles,
            x,
            y,
        ) by {
            assert(is_floor(before.0.tiles, x, y));
        }
    }
}

/// When rooms are at least two tiles wide and high, drawing and offering
/// any number of rooms keeps every room centre reachable from the starting
/// position over floor tiles.
pub proof fn lemma_grown_keeps_connected(
    layout: Layout,
    state: u64,
    attempts: nat,
    width: int,
    height: int,
    room_min_size: int,
    room_max_size: int,
)
    requires
        layout.orderly(width, height),
        layout.connected(),
        2 <= room_min_size <= room_max_size,
        room_max_size < width <= i32::MAX,
        room_max_size < height <= i32::MAX,
    ensures
        grown(layout, state, attempts, width, height, room_min_size, room_max_size).0.connected(),
    decreases attempts,
{
    if attempts > 0 {
        let before = grown(
            layout,
            state,
            (attempts - 1) as nat,
            width,
            height,
            room_min_size,
            room_max_size,
        );
        lemma_grown_keeps_order(
            layout,
            state,
            (attempts - 1) as nat,
            width,
            height,
            room_min_size,
            room_max_size,
        );
        lemma_grown_keeps_connected(
            layout,
            state,
            (attempts - 1) as nat,
            width,
            height,
            room_min_size,
            room_max_size,
        );
        let room = drawn_room(before.1, width, height, room_min_size, room_max_size);
        let coin = flip(advance(advance(advance(advance(before.1)))));
        lemma_drawn_room(before.1, width, height, room_min_size, room_max_size);
        lemma_place_keeps_connected(before.0, room, coin, width, height);
        assert(before.0.place(room, coin) == grown(
            layout,
            state,
            attempts,
            width,
            height,
            room_min_size,
            room_max_size,
        ).0);
    }
}

} // verus!

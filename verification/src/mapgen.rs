use vstd::prelude::*;
use crate::carve::{create_h_tunnel, create_room, create_v_tunnel};
use crate::grid::{lemma_memory_kept_trans, memory_kept, pristine, rectangular, Grid};
use crate::layout::{
    drawn_room, grown, lemma_grown_keeps_connected, lemma_grown_keeps_order, overlaps_any, Layout,
};
use crate::rect::Rect;
use crate::rng::Rng;

verus! {

/// Places rooms one at a time on a grid that starts out walled throughout.
pub struct MapBuilder {
    map: Grid,
    rooms: Vec<Rect>,
    start: (i32, i32),
}

impl View for MapBuilder {
    type V = Layout;

    /// What has been laid out so far.
    closed spec fn view(&self) -> Layout {
        Layout {
            tiles: self.map@,
            rooms: self.rooms@,
            start: (self.start.0 as int, self.start.1 as int),
        }
    }
}

impl MapBuilder {
    /// The width of the grid under construction.
    pub closed spec fn width(&self) -> int {
        self.map.width() as int
    }

    /// The height of the grid under construction.
    pub closed spec fn height(&self) -> int {
        self.map.height() as int
    }

    /// The grid under construction has the builder's size.
    pub open spec fn wf(&self) -> bool {
        rectangular(self@.tiles, self.width(), self.height())
    }

    /// A builder for a grid of the given size, with no room placed yet.
    pub fn new(width: i32, height: i32) -> (builder: MapBuilder)
        requires
            0 <= width,
            0 <= height,
        ensures
            builder.wf(),
            builder.width() == width,
            builder.height() == height,
            builder@ == Layout::blank(width as int, height as int),
    {
        MapBuilder { map: Grid::new(width, height), rooms: Vec::new(), start: (0, 0) }
    }

    /// Whether `room` overlaps a room accepted so far, borders included.
    pub fn overlaps(&self, room: &Rect) -> (b: bool)
        ensures
            b == overlaps_any(self@.rooms, *room),
    {
        let mut i: usize = 0;
        while i < self.rooms.len()
            invariant
                0 <= i <= self.rooms@.len(),
                forall|k: int| 0 <= k < i ==> !room.intersects(#[trigger] self.rooms@[k]),
            decreases self.rooms@.len() - i,
        {
            if room.intersects_with(&self.rooms[i]) {
                return true;
            }
            i += 1;
        }
        false
    }

    /// Offers `room` to the builder and tells whether it was accepted.
    ///
    /// A room that overlaps an accepted one is passed over and leaves the
    /// builder as it was.
    pub fn place_room(&mut self, room: Rect, horizontal_first: bool) -> (accepted: bool)
        requires
            old(self).wf(),
        ensures
            final(self).wf(),
            final(self).width() == old(self).width(),
            final(self).height() == old(self).height(),
            final(self)@ == old(self)@.place(room, horizontal_first),
            accepted == !overlaps_any(old(self)@.rooms, room),
            memory_kept(old(self)@.tiles, final(self)@.tiles),
    {
        if self.overlaps(&room) {
            return false;
        }
        create_room(room, &mut self.map);
        let (new_x, new_y) = room.center();
        if self.rooms.len() == 0 {
            self.start = (new_x, new_y);
        } else {
            let ghost opened = self.map@;
            let (prev_x, prev_y) = self.rooms[self.rooms.len() - 1].center();
            if horizontal_first {
                create_h_tunnel(prev_x, new_x, prev_y, &mut self.map);
                proof {
                    lemma_memory_kept_trans(old(self)@.tiles, opened, self.map@);
                }
                let ghost turned = self.map@;
                create_v_tunnel(prev_y, new_y, new_x, &mut self.map);
                proof {
                    lemma_memory_kept_trans(old(self)@.tiles, turned, self.map@);
                }
            } else {
                create_v_tunnel(prev_y, new_y, prev_x, &mut self.map);
                proof {
                    lemma_memory_kept_trans(old(self)@.tiles, opened, self.map@);
                }
                let ghost turned = self.map@;
                create_h_tunnel(prev_x, new_x, new_y, &mut self.map);
                proof {
                    lemma_memory_kept_trans(old(self)@.tiles, turned, self.map@);
                }
            }
        }
        self.rooms.push(room);
        true
    }

    /// Draws `max_rooms` rooms from `rng` and offers each in turn: the
    /// sides from `[room_min_size, room_max_size]`, the corner so that the
    /// room lies on the grid. Rooms that overlap an accepted one are passed
    /// over; every attempt counts, accepted or not.
    pub fn populate(
        &mut self,
        max_rooms: i32,
        room_min_size: i32,
        room_max_size: i32,
        rng: &mut Rng,
    )
        requires
            old(self).wf(),
            0 <= room_min_size <= room_max_size,
            room_max_size < old(self).width(),
            room_max_size < old(self).height(),
        ensures
            final(self).wf(),
            final(self).width() == old(self).width(),
            final(self).height() == old(self).height(),
            (final(self)@, final(rng)@) == grown(
                old(self)@,
                old(rng)@,
                (if max_rooms < 0 { 0 } else { max_rooms as nat }),
                old(self).width(),
                old(self).height(),
                room_min_size as int,
                room_max_size as int,
            ),
            memory_kept(old(self)@.tiles, final(self)@.tiles),
    {
        let ghost layout = self@;
        let ghost seed = rng@;
        let width = self.map.width();
        let height = self.map.height();
        let mut i: i32 = 0;
        while i < max_rooms
            invariant
                self.wf(),
                self.width() == width,
                self.height() == height,
                0 <= room_min_size <= room_max_size,
                room_max_size < width,
                room_max_size < height,
                0 <= i,
                i <= max_rooms || i == 0,
                memory_kept(layout.tiles, self@.tiles),
                (self@, rng@) == grown(
                    layout,
                    seed,
                    i as nat,
                    width as int,
                    height as int,
                    room_min_size as int,
                    room_max_size as int,
                ),
            decreases max_rooms - i,
        {
            let ghost state = rng@;
            let w = rng.gen_range(room_min_size, room_max_size);
            let h = rng.gen_range(room_min_size, room_max_size);
            let x = rng.gen_range(0, width - w - 1);
            let y = rng.gen_range(0, height - h - 1);
            let horizontal_first = rng.gen_bool();
            let room = Rect::new(x, y, w, h);
            assert(room == drawn_room(
                state,
                width as int,
                height as int,
                room_min_size as int,
                room_max_size as int,
            ));
            let ghost tiles = self@.tiles;
            self.place_room(room, horizontal_first);
            proof {
                lemma_memory_kept_trans(layout.tiles, tiles, self@.tiles);
            }
            i += 1;
        }
    }

    /// The grid as carved so far.
    pub fn map(&self) -> (map: &Grid)
        requires
            self.wf(),
        ensures
            map.wf(),
            map.width() == self.width(),
            map.height() == self.height(),
            map@ == self@.tiles,
    {
        &self.map
    }

    /// The player's starting position: the centre of the first accepted
    /// room, or the origin while there is none.
    pub fn start(&self) -> (start: (i32, i32))
        ensures
            (start.0 as int, start.1 as int) == self@.start,
    {
        self.start
    }

    /// The rooms accepted so far, in the order of their acceptance.
    pub fn rooms(&self) -> (rooms: &Vec<Rect>)
        ensures
            rooms@ == self@.rooms,
    {
        &self.rooms
    }

    /// Hands over the grid and the player's starting position.
    pub fn finish(self) -> (out: (Grid, (i32, i32)))
        requires
            self.wf(),
        ensures
            out.0.wf(),
            out.0.width() == self.width(),
            out.0.height() == self.height(),
            out.0@ == self@.tiles,
            (out.1.0 as int, out.1.1 as int) == self@.start,
    {
        (self.map, self.start)
    }
}

/// Builds a dungeon: a grid walled throughout, into which `max_rooms` rooms
/// drawn from `rng` are carved wherever they do not overlap an earlier one,
/// each joined to the room before it by a corridor. Returns the grid and the
/// player's starting position: the centre of the first room, or the origin
/// when no room was placed.
pub fn make_map(
    width: i32,
    height: i32,
    max_rooms: i32,
    room_min_size: i32,
    room_max_size: i32,
    rng: &mut Rng,
) -> (out: (Grid, (i32, i32)))
    requires
        0 <= room_min_size <= room_max_size,
        room_max_size < width,
        room_max_size < height,
    ensures
        out.0.wf(),
        out.0.width() == width,
        out.0.height() == height,
        ({
            let end = grown(
                Layout::blank(width as int, height as int),
                old(rng)@,
                (if max_rooms < 0 { 0 } else { max_rooms as nat }),
                width as int,
                height as int,
                room_min_size as int,
                room_max_size as int,
            );
            &&& out.0@ == end.0.tiles
            &&& (out.1.0 as int, out.1.1 as int) == end.0.start
            &&& final(rng)@ == end.1
            &&& end.0.rooms.len() <= max_rooms || end.0.rooms.len() == 0
            &&& end.0.orderly(width as int, height as int)
            &&& pristine(end.0.tiles)
            &&& room_min_size >= 2 ==> end.0.connected()
        }),
{
    let mut builder = MapBuilder::new(width, height);
    proof {
        let blank = Layout::blank(width as int, height as int);
        let attempts: nat = if max_rooms < 0 { 0 } else { max_rooms as nat };
        lemma_grown_keeps_order(
            blank,
            rng@,
            attempts,
            width as int,
            height as int,
            room_min_size as int,
            room_max_size as int,
        );
        if room_min_size >= 2 {
            lemma_grown_keeps_connected(
                blank,
                rng@,
                attempts,
                width as int,
                height as int,
                room_min_size as int,
                room_max_size as int,
            );
        }
    }
    builder.populate(max_rooms, room_min_size, room_max_size, rng);
    builder.finish()
}

} // verus!

use vstd::prelude::*;
use crate::grid::{
    in_bounds, is_lit, lemma_memory_kept_trans, lemma_noted_keeps_memory, lemma_noted_twice,
    memory_kept, noted, Grid,
};
use crate::tile::Tile;

verus! {

/// The ways of working out a field of view that the caller's visibility
/// service may offer. The tracker hands the choice through unread.
#[derive(Clone, Copy, Debug, PartialEq, Eq, Structural)]
pub enum FovAlgorithm {
    Basic,
    Diamond,
    Shadow,
    Permissive0,
    Permissive1,
    Permissive2,
    Permissive3,
    Permissive4,
    Permissive5,
    Permissive6,
    Permissive7,
    Permissive8,
    Restrictive,
}

/// A question for the visibility service: which tiles can be seen from
/// `(x, y)` within `radius`, and do lit walls count.
#[derive(Clone, Copy, Debug, PartialEq, Eq, Structural)]
pub struct FovRequest {
    pub x: i32,
    pub y: i32,
    pub radius: i32,
    pub light_walls: bool,
    pub algorithm: FovAlgorithm,
}

/// What a visibility tracker knows: where the observer stood when
/// visibility was last worked out, if it ever was, and which tiles were
/// visible then, column by column.
pub struct Sight {
    pub observer: Option<(i32, i32)>,
    pub seen: Seq<Seq<bool>>,
}

impl Sight {
    /// The knowledge of a tracker that has not looked yet: nothing is
    /// visible.
    pub open spec fn blind() -> Sight {
        Sight { observer: None, seen: Seq::empty() }
    }

    /// Whether `(x, y)` is currently visible.
    pub open spec fn visible(self, x: int, y: int) -> bool {
        is_lit(self.seen, x, y)
    }

    /// The question to put to the visibility service for an observer at
    /// `observer`, or `None` when the observer has not moved since
    /// visibility was last worked out.
    pub open spec fn request(
        self,
        observer: (i32, i32),
        radius: i32,
        light_walls: bool,
        algorithm: FovAlgorithm,
    ) -> Option<FovRequest> {
        if self.observer == Some(observer) {
            None
        } else {
            Some(FovRequest { x: observer.0, y: observer.1, radius, light_walls, algorithm })
        }
    }

    /// The knowledge after the service has answered `seen` for an observer
    /// at `observer`.
    pub open spec fn informed(self, observer: (i32, i32), seen: Seq<Seq<bool>>) -> Sight {
        Sight { observer: Some(observer), seen }
    }
}

/// Keeps the current field of view between frames, and has it worked out
/// anew only when the observer has moved.
pub struct VisibilityTracker {
    observer: Option<(i32, i32)>,
    seen: Vec<Vec<bool>>,
}

impl View for VisibilityTracker {
    type V = Sight;

    /// What the tracker knows.
    closed spec fn view(&self) -> Sight {
        Sight { observer: self.observer, seen: self.seen.deep_view() }
    }
}

impl VisibilityTracker {
    /// A tracker that has not looked yet.
    pub fn new() -> (tracker: VisibilityTracker)
        ensures
            tracker@ == Sight::blind(),
    {
        let tracker = VisibilityTracker { observer: None, seen: Vec::new() };
        assert(tracker.seen.deep_view() =~= Seq::empty());
        tracker
    }

    /// Decides whether visibility has to be worked out for an observer at
    /// `observer`. Returns the question for the visibility service, or
    /// `None` when the observer stands where it stood the last time: then
    /// the field of view on record is still the current one.
    pub fn recompute_if_moved(
        &self,
        observer: (i32, i32),
        radius: i32,
        light_walls: bool,
        algorithm: FovAlgorithm,
    ) -> (request: Option<FovRequest>)
        ensures
            request == self@.request(observer, radius, light_walls, algorithm),
    {
        match self.observer {
            Some(previous) => {
                if previous.0 == observer.0 && previous.1 == observer.1 {
                    return None;
                }
            },
            None => {},
        }
        Some(FovRequest { x: observer.0, y: observer.1, radius, light_walls, algorithm })
    }

    /// Takes in the visibility service's answer for an observer at
    /// `observer`: `seen[x][y]` tells whether the tile at `(x, y)` is
    /// visible. The answer becomes the field of view on record, and every
    /// visible tile of `map` is remembered as explored.
    pub fn observe(&mut self, observer: (i32, i32), seen: Vec<Vec<bool>>, map: &mut Grid)
        requires
            old(map).wf(),
        ensures
            final(self)@ == old(self)@.informed(observer, seen.deep_view()),
            final(map).wf(),
            final(map).width() == old(map).width(),
            final(map).height() == old(map).height(),
            final(map)@ == noted(old(map)@, seen.deep_view()),
            memory_kept(old(map)@, final(map)@),
    {
        map.remember(&seen);
        self.observer = Some(observer);
        self.seen = seen;
    }

    /// Whether the tile at `(x, y)` is in the field of view on record.
    pub fn is_in_fov(&self, x: i32, y: i32) -> (b: bool)
        ensures
            b == self@.visible(x as int, y as int),
    {
        if x < 0 || y < 0 {
            return false;
        }
        let column: usize = x as usize;
        let row: usize = y as usize;
        if column >= self.seen.len() {
            return false;
        }
        if row >= self.seen[column].len() {
            return false;
        }
        assert(self.seen.deep_view()[x as int] == self.seen@[x as int]@);
        self.seen[column][row]
    }
}

/// The tiles after each of `answers` has been taken note of in turn.
pub open spec fn noted_in_turn(tiles: Seq<Seq<Tile>>, answers: Seq<Seq<Seq<bool>>>) -> Seq<
    Seq<Tile>,
>
    decreases answers.len(),
{
    if answers.len() == 0 {
        tiles
    } else {
        noted(noted_in_turn(tiles, answers.drop_last()), answers.last())
    }
}

/// A tile that is explored stays explored, however often visibility is
/// worked out afterwards and whatever the answers are.
pub proof fn lemma_memory_only_grows(tiles: Seq<Seq<Tile>>, answers: Seq<Seq<Seq<bool>>>)
    ensures
        memory_kept(tiles, noted_in_turn(tiles, answers)),
    decreases answers.len(),
{
    if answers.len() > 0 {
        let before = noted_in_turn(tiles, answers.drop_last());
        lemma_memory_only_grows(tiles, answers.drop_last());
        lemma_noted_keeps_memory(before, answers.last());
        lemma_memory_kept_trans(tiles, before, noted(before, answers.last()));
    }
}

/// Once visibility has been worked out for an observer, no new question is
/// asked while the observer stays there; and had it been worked out again
/// with the same answer, neither the field of view on record nor any
/// tile's memory would differ. Taking note of an answer leaves every wall
/// where it was, so the service would be asked about the same grid.
pub proof fn lemma_standing_still(
    sight: Sight,
    tiles: Seq<Seq<Tile>>,
    observer: (i32, i32),
    seen: Seq<Seq<bool>>,
    radius: i32,
    light_walls: bool,
    algorithm: FovAlgorithm,
)
    ensures
        sight.informed(observer, seen).request(observer, radius, light_walls, algorithm) is None,
        sight.informed(observer, seen).informed(observer, seen) == sight.informed(observer, seen),
        noted(noted(tiles, seen), seen) == noted(tiles, seen),
        forall|x: int, y: int|
            in_bounds(tiles, x, y) ==> (#[trigger] noted(tiles, seen)[x][y]).block_sight
                == tiles[x][y].block_sight && noted(tiles, seen)[x][y].blocked
                == tiles[x][y].blocked,
{
    lemma_noted_twice(tiles, seen);
}

} // verus!

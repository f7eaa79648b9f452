use vstd::prelude::*;
use crate::tile::Tile;

verus! {

/// Whether `(x, y)` names a tile of `tiles`.
pub open spec fn in_bounds(tiles: Seq<Seq<Tile>>, x: int, y: int) -> bool {
    0 <= x < tiles.len() && 0 <= y < tiles[x].len()
}

/// Whether `(x, y)` names a tile of `tiles` that entities can stand on.
pub open spec fn is_floor(tiles: Seq<Seq<Tile>>, x: int, y: int) -> bool {
    in_bounds(tiles, x, y) && !tiles[x][y].blocked
}

/// Whether `tiles` is made of `width` columns of `height` tiles each.
pub open spec fn rectangular(tiles: Seq<Seq<Tile>>, width: int, height: int) -> bool {
    &&& 0 <= height
    &&& tiles.len() == width
    &&& forall|x: int| 0 <= x < tiles.len() ==> (#[trigger] tiles[x]).len() == height
}

/// The grid of the given size in which every tile is an unexplored wall.
pub open spec fn walled(width: int, height: int) -> Seq<Seq<Tile>> {
    Seq::new(width as nat, |x: int| Seq::new(height as nat, |y: int| Tile::wall()))
}

/// `tiles` with every tile whose coordinates lie in
/// `[x_lo, x_hi] x [y_lo, y_hi]` turned into floor.
pub open spec fn dug(tiles: Seq<Seq<Tile>>, x_lo: int, x_hi: int, y_lo: int, y_hi: int) -> Seq<
    Seq<Tile>,
> {
    Seq::new(
        tiles.len(),
        |x: int|
            Seq::new(
                tiles[x].len(),
                |y: int|
                    if x_lo <= x <= x_hi && y_lo <= y <= y_hi {
                        tiles[x][y].opened()
                    } else {
                        tiles[x][y]
                    },
            ),
    )
}

/// Whether `seen` marks `(x, y)` as visible. Coordinates that `seen` does
/// not cover are not visible.
pub open spec fn is_lit(seen: Seq<Seq<bool>>, x: int, y: int) -> bool {
    0 <= x < seen.len() && 0 <= y < seen[x].len() && seen[x][y]
}

/// `tiles` with every tile that `seen` marks as visible remembered as
/// explored.
pub open spec fn noted(tiles: Seq<Seq<Tile>>, seen: Seq<Seq<bool>>) -> Seq<Seq<Tile>> {
    Seq::new(
        tiles.len(),
        |x: int|
            Seq::new(
                tiles[x].len(),
                |y: int|
                    if is_lit(seen, x, y) {
                        tiles[x][y].noticed()
                    } else {
                        tiles[x][y]
                    },
            ),
    )
}

/// Whether `after` has the shape of `before` and every tile explored in
/// `before` is still explored in `after`.
pub open spec fn memory_kept(before: Seq<Seq<Tile>>, after: Seq<Seq<Tile>>) -> bool {
    &&& after.len() == before.len()
    &&& forall|x: int| 0 <= x < before.len() ==> (#[trigger] after[x]).len() == before[x].len()
    &&& forall|x: int, y: int|
        in_bounds(before, x, y) && before[x][y].explored ==> (#[trigger] after[x][y]).explored
}

/// Whether every floor tile of `before` is still a floor tile of `after`.
pub open spec fn floors_kept(before: Seq<Seq<Tile>>, after: Seq<Seq<Tile>>) -> bool {
    forall|x: int, y: int| #[trigger] is_floor(before, x, y) ==> is_floor(after, x, y)
}

/// Whether every tile is an unexplored wall or an unexplored floor tile.
pub open spec fn pristine(tiles: Seq<Seq<Tile>>) -> bool {
    forall|x: int, y: int|
        in_bounds(tiles, x, y) ==> (#[trigger] tiles[x][y]) == Tile::wall() || tiles[x][y]
            == Tile::empty()
}

/// Digging keeps the grid's size and every floor tile, keeps pristine tiles
/// pristine, and leaves floor wherever the dug box meets the grid.
pub proof fn lemma_dug(
    tiles: Seq<Seq<Tile>>,
    x_lo: int,
    x_hi: int,
    y_lo: int,
    y_hi: int,
    width: int,
    height: int,
)
    requires
        rectangular(tiles, width, height),
    ensures
        rectangular(dug(tiles, x_lo, x_hi, y_lo, y_hi), width, height),
        floors_kept(tiles, dug(tiles, x_lo, x_hi, y_lo, y_hi)),
        pristine(tiles) ==> pristine(dug(tiles, x_lo, x_hi, y_lo, y_hi)),
        forall|x: int, y: int|
            0 <= x < width && 0 <= y < height && x_lo <= x <= x_hi && y_lo <= y <= y_hi
                ==> #[trigger] is_floor(dug(tiles, x_lo, x_hi, y_lo, y_hi), x, y),
{
    let after = dug(tiles, x_lo, x_hi, y_lo, y_hi);
    assert forall|x: int, y: int| #[trigger] is_floor(tiles, x, y) implies is_floor(
        after,
        x,
        y,
    ) by {
        assert(tiles[x].len() == height);
    }
    assert forall|x: int, y: int|
        0 <= x < width && 0 <= y < height && x_lo <= x <= x_hi && y_lo <= y
            <= y_hi implies #[trigger] is_floor(after, x, y) by {
        assert(tiles[x].len() == height);
    }
    if pristine(tiles) {
        assert forall|x: int, y: int| in_bounds(after, x, y) implies (#[trigger] after[x][y])
            == Tile::wall() || after[x][y] == Tile::empty() by {
            assert(in_bounds(tiles, x, y));
            assert(tiles[x][y] == Tile::wall() || tiles[x][y] == Tile::empty());
        }
    }
}

/// Digging never makes the player forget a tile.
pub proof fn lemma_dug_keeps_memory(
    tiles: Seq<Seq<Tile>>,
    x_lo: int,
    x_hi: int,
    y_lo: int,
    y_hi: int,
)
    ensures
        memory_kept(tiles, dug(tiles, x_lo, x_hi, y_lo, y_hi)),
{
}

/// Taking note of what is visible never makes the player forget a tile,
/// and every visible tile of the grid ends up explored.
pub proof fn lemma_noted_keeps_memory(tiles: Seq<Seq<Tile>>, seen: Seq<Seq<bool>>)
    ensures
        memory_kept(tiles, noted(tiles, seen)),
        forall|x: int, y: int|
            in_bounds(tiles, x, y) && is_lit(seen, x, y) ==> (#[trigger] noted(
                tiles,
                seen,
            )[x][y]).explored,
{
}

/// Exploration memory is kept across any number of changes that each keep it.
pub proof fn lemma_memory_kept_trans(a: Seq<Seq<Tile>>, b: Seq<Seq<Tile>>, c: Seq<Seq<Tile>>)
    requires
        memory_kept(a, b),
        memory_kept(b, c),
    ensures
        memory_kept(a, c),
{
    assert forall|x: int| 0 <= x < a.len() implies (#[trigger] c[x]).len() == a[x].len() by {
        assert(b[x].len() == a[x].len());
    }
    assert forall|x: int, y: int| in_bounds(a, x, y) && a[x][y].explored implies (
    #[trigger] c[x][y]).explored by {
        assert(b[x].len() == a[x].len());
        assert(b[x][y].explored);
    }
}

/// Taking note of the same visible set twice changes nothing more than
/// taking note of it once.
pub proof fn lemma_noted_twice(tiles: Seq<Seq<Tile>>, seen: Seq<Seq<bool>>)
    ensures
        noted(noted(tiles, seen), seen) == noted(tiles, seen),
{
    assert(noted(noted(tiles, seen), seen) =~~= noted(tiles, seen));
}

/// The dungeon: `width` columns of `height` tiles, addressed as `(x, y)` with
/// `x` selecting the column.
pub struct Grid {
    width: i32,
    height: i32,
    tiles: Vec<Vec<Tile>>,
}

impl View for Grid {
    type V = Seq<Seq<Tile>>;

    /// The tiles, column by column.
    closed spec fn view(&self) -> Seq<Seq<Tile>> {
        Seq::new(self.tiles@.len(), |x: int| self.tiles@[x]@)
    }
}

impl Grid {
    /// The number of columns.
    pub closed spec fn spec_width(&self) -> i32 {
        self.width
    }

    /// The number of tiles in each column.
    pub closed spec fn spec_height(&self) -> i32 {
        self.height
    }

    /// Every column has the same length, and the recorded size is the real one.
    pub open spec fn wf(&self) -> bool {
        rectangular(self@, self.width() as int, self.height() as int)
    }

    /// The number of columns.
    #[verifier::when_used_as_spec(spec_width)]
    pub fn width(&self) -> (w: i32)
        ensures
            w == self.width(),
    {
        self.width
    }

    /// The number of tiles in each column.
    #[verifier::when_used_as_spec(spec_height)]
    pub fn height(&self) -> (h: i32)
        ensures
            h == self.height(),
    {
        self.height
    }

    /// A grid of the given size, walled throughout.
    pub fn new(width: i32, height: i32) -> (g: Grid)
        requires
            0 <= width,
            0 <= height,
        ensures
            g.wf(),
            g.width() == width,
            g.height() == height,
            g@ == walled(width as int, height as int),
    {
        let mut tiles: Vec<Vec<Tile>> = Vec::new();
        let mut x: i32 = 0;
        while x < width
            invariant
                0 <= x <= width,
                0 <= height,
                tiles@.len() == x,
                forall|i: int| 0 <= i < x ==> (#[trigger] tiles@[i])@ == Seq::new(
                    height as nat,
                    |y: int| Tile::wall(),
                ),
            decreases width - x,
        {
            let mut column: Vec<Tile> = Vec::new();
            let mut y: i32 = 0;
            while y < height
                invariant
                    0 <= y <= height,
                    column@.len() == y,
                    forall|j: int| 0 <= j < y ==> #[trigger] column@[j] == Tile::wall(),
                decreases height - y,
            {
                column.push(Tile::wall());
                y += 1;
            }
            assert(column@ =~= Seq::new(height as nat, |y: int| Tile::wall()));
            tiles.push(column);
            x += 1;
        }
        let g = Grid { width, height, tiles };
        assert(g@ =~= walled(width as int, height as int));
        g
    }

    /// The checked accessor: the tile at `(x, y)`, or `None` when the
    /// coordinates fall outside the grid.
    pub fn get(&self, x: i32, y: i32) -> (t: Option<Tile>)
        requires
            self.wf(),
        ensures
            t == (if in_bounds(self@, x as int, y as int) {
                Some(self@[x as int][y as int])
            } else {
                None
            }),
    {
        proof {
            self.lemma_columns();
        }
        if 0 <= x && x < self.width && 0 <= y && y < self.height {
            Some(self.tiles[x as usize][y as usize])
        } else {
            None
        }
    }

    /// The tile at `(x, y)`, for callers that know the coordinates to lie
    /// on the grid.
    pub fn tile(&self, x: i32, y: i32) -> (t: Tile)
        requires
            self.wf(),
            in_bounds(self@, x as int, y as int),
        ensures
            t == self@[x as int][y as int],
    {
        proof {
            self.lemma_columns();
        }
        self.tiles[x as usize][y as usize]
    }

    /// Whether an entity is kept from standing at `(x, y)`: the tile there is
    /// blocked, or the coordinates fall outside the grid.
    pub fn is_blocked(&self, x: i32, y: i32) -> (b: bool)
        requires
            self.wf(),
        ensures
            b == !is_floor(self@, x as int, y as int),
    {
        match self.get(x, y) {
            Some(tile) => tile.blocked,
            None => true,
        }
    }

    /// Remembers as explored every tile that `seen` marks as visible.
    /// Entries of `seen` that name no tile of the grid are passed over.
    pub fn remember(&mut self, seen: &Vec<Vec<bool>>)
        requires
            old(self).wf(),
        ensures
            final(self).wf(),
            final(self).width() == old(self).width(),
            final(self).height() == old(self).height(),
            final(self)@ == noted(old(self)@, seen.deep_view()),
            memory_kept(old(self)@, final(self)@),
    {
        proof {
            self.lemma_columns();
        }
        let ghost before = self.tiles@;
        let ghost lit = seen.deep_view();
        let mut x: usize = 0;
        while x < seen.len() && x < self.tiles.len()
            invariant
                self.width == old(self).width,
                self.height == old(self).height,
                self.tiles@.len() == self.width,
                before.len() == self.width,
                lit == seen.deep_view(),
                0 <= x <= self.width,
                0 <= self.height,
                forall|i: int|
                    0 <= i < self.width ==> (#[trigger] self.tiles@[i])@.len() == self.height,
                forall|i: int| 0 <= i < self.width ==> (#[trigger] before[i])@.len() == self.height,
                forall|i: int, j: int|
                    0 <= i < self.width && 0 <= j < self.height ==> #[trigger] self.tiles@[i]@[j]
                        == (if i < x && is_lit(lit, i, j) {
                        before[i]@[j].noticed()
                    } else {
                        before[i]@[j]
                    }),
            decreases self.width - x,
        {
            let mut y: usize = 0;
            while y < seen[x].len() && y < self.tiles[x].len()
                invariant
                    self.width == old(self).width,
                    self.height == old(self).height,
                    self.tiles@.len() == self.width,
                    before.len() == self.width,
                    lit == seen.deep_view(),
                    0 <= x < self.width,
                    x < seen@.len(),
                    0 <= y <= self.height,
                    forall|i: int|
                        0 <= i < self.width ==> (#[trigger] self.tiles@[i])@.len() == self.height,
                    forall|i: int|
                        0 <= i < self.width ==> (#[trigger] before[i])@.len() == self.height,
                    forall|i: int, j: int|
                        0 <= i < self.width && 0 <= j < self.height
                            ==> #[trigger] self.tiles@[i]@[j] == (if (i < x || (i == x && j < y))
                            && is_lit(lit, i, j) {
                            before[i]@[j].noticed()
                        } else {
                            before[i]@[j]
                        }),
                decreases self.height - y,
            {
                assert(lit[x as int][y as int] == seen@[x as int]@[y as int]);
                if seen[x][y] {
                    let t = self.tiles[x][y];
                    self.tiles[x][y] = Tile {
                        blocked: t.blocked,
                        block_sight: t.block_sight,
                        explored: true,
                    };
                }
                y += 1;
            }
            assert(lit[x as int].len() == seen@[x as int]@.len());
            x += 1;
        }
        assert(lit.len() == seen@.len());
        assert(self@ =~~= noted(old(self)@, lit));
        proof {
            lemma_noted_keeps_memory(old(self)@, lit);
        }
    }

    /// What well-formedness says of the stored columns.
    proof fn lemma_columns(&self)
        requires
            self.wf(),
        ensures
            self.tiles@.len() == self.width,
            0 <= self.height,
            forall|x: int|
                0 <= x < self.width ==> (#[trigger] self.tiles@[x])@.len() == self.height,
    {
        assert forall|x: int| 0 <= x < self.width implies (#[trigger] self.tiles@[x])@.len()
            == self.height by {
            assert(self@[x] == self.tiles@[x]@);
        }
    }

    /// Turns every tile with `x_lo <= x <= x_hi` and `y_lo <= y <= y_hi` into
    /// floor. Coordinates outside the grid are passed over, and what the
    /// player remembers of a tile is kept.
    pub fn dig(&mut self, x_lo: i32, x_hi: i32, y_lo: i32, y_hi: i32)
        requires
            old(self).wf(),
        ensures
            final(self).wf(),
            final(self).width() == old(self).width(),
            final(self).height() == old(self).height(),
            final(self)@ == dug(old(self)@, x_lo as int, x_hi as int, y_lo as int, y_hi as int),
            memory_kept(old(self)@, final(self)@),
    {
        proof {
            self.lemma_columns();
            lemma_dug_keeps_memory(self@, x_lo as int, x_hi as int, y_lo as int, y_hi as int);
        }
        let ghost before = self.tiles@;
        let xa: i32 = if x_lo < 0 { 0 } else { x_lo };
        let ya: i32 = if y_lo < 0 { 0 } else { y_lo };
        let xb: i32 = if x_hi >= self.width { self.width - 1 } else { x_hi };
        let yb: i32 = if y_hi >= self.height { self.height - 1 } else { y_hi };
        if xa > xb || ya > yb {
            assert(self@ =~~= dug(self@, x_lo as int, x_hi as int, y_lo as int, y_hi as int));
            return ;
        }
        let mut x: i32 = xa;
        while x <= xb
            invariant
                self.width == old(self).width,
                self.height == old(self).height,
                self.tiles@.len() == self.width,
                before.len() == self.width,
                0 <= xa <= x <= xb + 1,
                xb < self.width,
                0 <= ya <= yb < self.height,
                forall|i: int|
                    0 <= i < self.width ==> (#[trigger] self.tiles@[i])@.len() == self.height,
                forall|i: int| 0 <= i < self.width ==> (#[trigger] before[i])@.len() == self.height,
                forall|i: int, j: int|
                    0 <= i < self.width && 0 <= j < self.height ==> #[trigger] self.tiles@[i]@[j]
                        == (if xa <= i < x && ya <= j <= yb {
                        before[i]@[j].opened()
                    } else {
                        before[i]@[j]
                    }),
            decreases xb + 1 - x,
        {
            let mut y: i32 = ya;
            while y <= yb
                invariant
                    self.width == old(self).width,
                    self.height == old(self).height,
                    self.tiles@.len() == self.width,
                    before.len() == self.width,
                    0 <= xa <= x <= xb < self.width,
                    0 <= ya <= y <= yb + 1,
                    yb < self.height,
                    forall|i: int|
                        0 <= i < self.width ==> (#[trigger] self.tiles@[i])@.len() == self.height,
                    forall|i: int|
                        0 <= i < self.width ==> (#[trigger] before[i])@.len() == self.height,
                    forall|i: int, j: int|
                        0 <= i < self.width && 0 <= j < self.height
                            ==> #[trigger] self.tiles@[i]@[j] == (if ya <= j <= yb && (xa <= i < x
                            || (i == x && j < y)) {
                            before[i]@[j].opened()
                        } else {
                            before[i]@[j]
                        }),
                decreases yb + 1 - y,
            {
                let t = self.tiles[x as usize][y as usize];
                self.tiles[x as usize][y as usize] = Tile {
                    blocked: false,
                    block_sight: false,
                    explored: t.explored,
                };
                y += 1;
            }
            x += 1;
        }
        assert(self@ =~~= dug(old(self)@, x_lo as int, x_hi as int, y_lo as int, y_hi as int));
    }
}

} // verus!

//! The bounded, rectangular tile grid and the procedural seeder that builds
//! the starting map.

use vstd::prelude::*;

use crate::items::{ItemContainer, Items, CONTAINER_CAPACITY};
use crate::tiles::{FloorTile, RoadTile, Tiles};

verus! {

/// Side length of the seeded starting map.
pub const MAP_SIZE: usize = 16;

/// A `width x height` grid of tiles stored row-major, with coordinate-checked
/// accessors. Out-of-range reads yield `None`; out-of-range writes are a
/// caller error and excluded by precondition.
pub struct MapHandler {
    map: Vec<Tiles>,
    width: usize,
    height: usize,
}

/// A tile that is a road over an entirely empty container, as freshly built
/// grids are filled with.
pub open spec fn is_empty_road(t: Tiles) -> bool {
    &&& t is Road
    &&& t.container_seq().len() == CONTAINER_CAPACITY
    &&& forall|j: int| 0 <= j < CONTAINER_CAPACITY ==> t.container_seq()[j] is None
}

/// Distinct in-range coordinates occupy distinct row-major indices.
proof fn lemma_row_major_distinct(w: int, x1: int, y1: int, x2: int, y2: int)
    by (nonlinear_arith)
    requires
        0 <= x1 < w,
        0 <= x2 < w,
        !(x1 == x2 && y1 == y2),
    ensures
        y1 * w + x1 != y2 * w + x2,
{
}

/// An in-range coordinate pair indexes inside the grid's backing store.
pub proof fn lemma_row_major_in_range(w: int, h: int, x: int, y: int)
    by (nonlinear_arith)
    requires
        0 <= x < w,
        0 <= y < h,
    ensures
        0 <= y * w + x < w * h,
{
}

impl MapHandler {
    /// The grid's width, as a mathematical integer.
    pub closed spec fn spec_width(&self) -> int {
        self.width as int
    }

    /// The grid's height, as a mathematical integer.
    pub closed spec fn spec_height(&self) -> int {
        self.height as int
    }

    /// The backing row-major tile sequence.
    pub closed spec fn tiles(&self) -> Seq<Tiles> {
        self.map@
    }

    /// Invariant: the store holds exactly `width * height` well-formed tiles.
    pub open spec fn wf(&self) -> bool {
        &&& self.tiles().len() == self.spec_width() * self.spec_height()
        &&& self.spec_width() * self.spec_height() <= usize::MAX
        &&& self.spec_width() <= i32::MAX
        &&& self.spec_height() <= i32::MAX
        &&& forall|i: int| 0 <= i < self.tiles().len() ==> (#[trigger] self.tiles()[i]).wf()
    }

    /// Whether a (possibly signed) coordinate pair lies on the grid.
    pub open spec fn in_bounds(&self, x: int, y: int) -> bool {
        0 <= x < self.spec_width() && 0 <= y < self.spec_height()
    }

    /// The tile at an in-bounds coordinate pair.
    pub open spec fn spec_tile(&self, x: int, y: int) -> Tiles {
        self.tiles()[y * self.spec_width() + x]
    }

    /// `post` differs from `pre` exactly by carrying `t` at `(x, y)`.
    pub proof fn lemma_update_other(pre: MapHandler, post: MapHandler, x: int, y: int, t: Tiles)
        requires
            pre.wf(),
            pre.in_bounds(x, y),
            post.spec_width() == pre.spec_width(),
            post.spec_height() == pre.spec_height(),
            post.tiles() == pre.tiles().update(y * pre.spec_width() + x, t),
        ensures
            post.spec_tile(x, y) == t,
            forall|i: int, j: int|
                pre.in_bounds(i, j) && !(i == x && j == y)
                    ==> post.spec_tile(i, j) == pre.spec_tile(i, j),
            pre.spec_tile(x, y).wf(),
            t.wf() ==> post.wf(),
    {
        lemma_row_major_in_range(pre.spec_width(), pre.spec_height(), x, y);
        assert forall|i: int, j: int|
            pre.in_bounds(i, j) && !(i == x && j == y)
                implies post.spec_tile(i, j) == pre.spec_tile(i, j) by {
            lemma_row_major_distinct(pre.spec_width(), i, j, x, y);
            lemma_row_major_in_range(pre.spec_width(), pre.spec_height(), i, j);
        }
    }

    /// A grid of the given size, filled entirely with empty road tiles.
    pub fn new(width: usize, height: usize) -> (m: Self)
        requires
            width * height <= usize::MAX,
            width <= i32::MAX,
            height <= i32::MAX,
        ensures
            m.wf(),
            m.spec_width() == width,
            m.spec_height() == height,
            forall|i: int| 0 <= i < m.tiles().len() ==> is_empty_road(#[trigger] m.tiles()[i]),
    {
        let total = width * height;
        let mut map: Vec<Tiles> = Vec::new();
        let mut n: usize = 0;
        while n < total
            invariant
                n <= total,
                map@.len() == n,
                forall|i: int| 0 <= i < n ==> is_empty_road(#[trigger] map@[i]),
                forall|i: int| 0 <= i < n ==> (#[trigger] map@[i]).wf(),
            decreases total - n,
        {
            map.push(Tiles::Road(RoadTile::new()));
            n = n + 1;
        }
        Self { map, width, height }
    }

    /// The grid's width.
    pub fn width(&self) -> (w: usize)
        ensures
            w == self.spec_width(),
    {
        self.width
    }

    /// The grid's height.
    pub fn height(&self) -> (h: usize)
        ensures
            h == self.spec_height(),
    {
        self.height
    }

    /// Whether unsigned coordinates lie on the grid.
    pub fn is_in(&self, x: usize, y: usize) -> (r: bool)
        ensures
            r == self.in_bounds(x as int, y as int),
    {
        x < self.width && y < self.height
    }

    /// Row-major index of an in-bounds coordinate pair.
    fn index_of(&self, x: usize, y: usize) -> (i: usize)
        requires
            self.wf(),
            self.in_bounds(x as int, y as int),
        ensures
            i == y * self.spec_width() + x,
            i < self.tiles().len(),
    {
        proof {
            lemma_row_major_in_range(self.spec_width(), self.spec_height(), x as int, y as int);
        }
        y * self.width + x
    }

    /// The tile at signed coordinates; `None` for anything off the grid.
    pub fn get_tile_at(&self, x: i32, y: i32) -> (r: Option<&Tiles>)
        requires
            self.wf(),
        ensures
            match r {
                Some(t) => self.in_bounds(x as int, y as int) && *t == self.spec_tile(x as int, y as int),
                None => !self.in_bounds(x as int, y as int),
            },
    {
        if x < 0 || y < 0 {
            return None;
        }
        let ux = x as usize;
        let uy = y as usize;
        if !self.is_in(ux, uy) {
            None
        } else {
            let i = self.index_of(ux, uy);
            Some(&self.map[i])
        }
    }

    /// Mutable access to the tile at signed coordinates; `None` for anything
    /// off the grid. The grid afterwards holds whatever the caller left
    /// behind the reference.
    pub fn get_tile_at_mut(&mut self, x: i32, y: i32) -> (r: Option<&mut Tiles>)
        requires
            old(self).wf(),
        ensures
            match r {
                Some(t) => old(self).in_bounds(x as int, y as int)
                    && *t == old(self).spec_tile(x as int, y as int)
                    && final(self).spec_width() == old(self).spec_width()
                    && final(self).spec_height() == old(self).spec_height()
                    && final(self).tiles() == old(self).tiles().update(
                        y * old(self).spec_width() + x,
                        *final(t),
                    ),
                None => !old(self).in_bounds(x as int, y as int) && *final(self) == *old(self),
            },
    {
        if x < 0 || y < 0 {
            return None;
        }
        let ux = x as usize;
        let uy = y as usize;
        if !self.is_in(ux, uy) {
            None
        } else {
            let i = self.index_of(ux, uy);
            Some(&mut self.map[i])
        }
    }

    /// Replaces the tile at unsigned in-bounds coordinates. Writing outside
    /// the grid is a caller error, excluded by precondition.
    pub fn set_tile_at(&mut self, x: usize, y: usize, tile: Tiles)
        requires
            old(self).wf(),
            old(self).in_bounds(x as int, y as int),
        ensures
            final(self).spec_width() == old(self).spec_width(),
            final(self).spec_height() == old(self).spec_height(),
            final(self).tiles() == old(self).tiles().update(
                y * old(self).spec_width() + x,
                tile,
            ),
            tile.wf() ==> final(self).wf(),
    {
        let i = self.index_of(x, y);
        self.map.set(i, tile);
    }
}

/// Relies on `rand::random`: a fresh pseudorandom draw of the standard
/// distribution over `u32`; nothing is assumed about the value.
#[verifier::external_body]
fn random_u32() -> u32 {
    rand::random()
}

/// Whether a uniform pseudorandom draw falls into one residue class out of
/// `n`: true with a one-in-`n` chance.
fn chance_one_in(n: u32) -> bool
    requires
        n >= 1,
{
    let draw = random_u32();
    draw % n == 0
}

/// Builds the seeded starting map: an empty road plain, a walled hall of
/// floor tiles randomly stocked with items, one closed door in the wall, and
/// a stocked road container in the corner.
pub fn generate_map() -> (m: MapHandler)
    ensures
        m.wf(),
        m.spec_width() == MAP_SIZE,
        m.spec_height() == MAP_SIZE,
        m.spec_tile(8, 4) == Tiles::Door(false),
        m.spec_tile(0, 0) is Road,
        m.spec_tile(0, 0).container_seq().len() == CONTAINER_CAPACITY,
        m.spec_tile(0, 0).container_seq()[0] == Some(Items::Food),
        forall|x: int| 4 <= x < 12 && x != 8 ==> m.spec_tile(x, 4) is Wall,
        forall|x: int| 4 <= x < 12 ==> m.spec_tile(x, 12) is Wall,
        forall|y: int| 4 <= y < 12 ==> m.spec_tile(4, y) is Wall && m.spec_tile(12, y) is Wall,
        forall|x: int, y: int| 5 <= x < 12 && 5 <= y < 12 ==> m.spec_tile(x, y) is Floor,
        forall|x: int, y: int|
            m.in_bounds(x, y) && !(4 <= x <= 12 && 4 <= y <= 12) && !(x == 0 && y == 0)
                ==> is_empty_road(#[trigger] m.spec_tile(x, y)),
        is_empty_road(m.spec_tile(12, 12)),
{
    let mut map = MapHandler::new(MAP_SIZE, MAP_SIZE);
    proof {
        assert forall|i: int, j: int| map.in_bounds(i, j) implies is_empty_road(
            map.spec_tile(i, j),
        ) by {
            lemma_row_major_in_range(map.spec_width(), map.spec_height(), i, j);
        }
    }

    let mut x: usize = 5;
    while x <= MAP_SIZE - 5
        invariant
            5 <= x <= MAP_SIZE - 4,
            map.wf(),
            map.spec_width() == MAP_SIZE,
            map.spec_height() == MAP_SIZE,
            forall|i: int, j: int|
                5 <= i < x && 5 <= j < 12 ==> map.spec_tile(i, j) is Floor,
            forall|i: int, j: int|
                map.in_bounds(i, j) && !(4 <= i <= 12 && 4 <= j <= 12)
                    ==> is_empty_road(#[trigger] map.spec_tile(i, j)),
            is_empty_road(map.spec_tile(12, 12)),
        decreases MAP_SIZE - x,
    {
        let mut y: usize = 5;
        while y <= MAP_SIZE - 5
            invariant
                5 <= x <= MAP_SIZE - 5,
                5 <= y <= MAP_SIZE - 4,
                map.wf(),
                map.spec_width() == MAP_SIZE,
                map.spec_height() == MAP_SIZE,
                forall|i: int, j: int|
                    5 <= i < x && 5 <= j < 12 ==> map.spec_tile(i, j) is Floor,
                forall|j: int| 5 <= j < y ==> map.spec_tile(x as int, j) is Floor,
                forall|i: int, j: int|
                    map.in_bounds(i, j) && !(4 <= i <= 12 && 4 <= j <= 12)
                        ==> is_empty_road(#[trigger] map.spec_tile(i, j)),
                is_empty_road(map.spec_tile(12, 12)),
            decreases MAP_SIZE - y,
        {
            let mut container = ItemContainer::new();
            if chance_one_in(10) {
                container.add(Items::Bandage);
            }
            if chance_one_in(10) {
                container.add(Items::Food);
            }
            let ghost pre = map;
            map.set_tile_at(x, y, Tiles::Floor(FloorTile(Box::new(container))));
            proof {
                lemma_row_major_in_range(pre.spec_width(), pre.spec_height(), x as int, y as int);
                MapHandler::lemma_update_other(
                    pre,
                    map,
                    x as int,
                    y as int,
                    map.spec_tile(x as int, y as int),
                );
                assert forall|i: int, j: int|
                    map.in_bounds(i, j) && !(4 <= i <= 12 && 4 <= j <= 12) implies is_empty_road(
                    map.spec_tile(i, j),
                ) by {
                    assert(pre.in_bounds(i, j));
                    assert(map.spec_tile(i, j) == pre.spec_tile(i, j));
                    assert(is_empty_road(pre.spec_tile(i, j)));
                }
                assert(map.spec_tile(12, 12) == pre.spec_tile(12, 12));
            }
            y = y + 1;
        }
        x = x + 1;
    }

    let mut x: usize = 4;
    while x < MAP_SIZE - 4
        invariant
            4 <= x <= MAP_SIZE - 4,
            map.wf(),
            map.spec_width() == MAP_SIZE,
            map.spec_height() == MAP_SIZE,
            forall|i: int, j: int|
                5 <= i < 12 && 5 <= j < 12 ==> map.spec_tile(i, j) is Floor,
            forall|i: int| 4 <= i < x ==> map.spec_tile(i, 4) is Wall && map.spec_tile(
                i,
                12,
            ) is Wall,
            forall|i: int, j: int|
                map.in_bounds(i, j) && !(4 <= i <= 12 && 4 <= j <= 12)
                    ==> is_empty_road(#[trigger] map.spec_tile(i, j)),
            is_empty_road(map.spec_tile(12, 12)),
        decreases MAP_SIZE - x,
    {
        let ghost pre1 = map;
        map.set_tile_at(x, 4, Tiles::Wall);
        proof {
            MapHandler::lemma_update_other(pre1, map, x as int, 4, Tiles::Wall);
        }
        let ghost pre2 = map;
        map.set_tile_at(x, MAP_SIZE - 4, Tiles::Wall);
        proof {
            MapHandler::lemma_update_other(pre2, map, x as int, 12, Tiles::Wall);
            assert forall|i: int, j: int|
                map.in_bounds(i, j) && !(4 <= i <= 12 && 4 <= j <= 12) implies is_empty_road(
                map.spec_tile(i, j),
            ) by {
                assert(pre1.in_bounds(i, j) && pre2.in_bounds(i, j));
                assert(map.spec_tile(i, j) == pre2.spec_tile(i, j));
                assert(pre2.spec_tile(i, j) == pre1.spec_tile(i, j));
                assert(is_empty_road(pre1.spec_tile(i, j)));
            }
            assert(map.spec_tile(12, 12) == pre2.spec_tile(12, 12));
            assert(pre2.spec_tile(12, 12) == pre1.spec_tile(12, 12));
        }
        x = x + 1;
    }

    let mut y: usize = 4;
    while y < MAP_SIZE - 4
        invariant
            4 <= y <= MAP_SIZE - 4,
            map.wf(),
            map.spec_width() == MAP_SIZE,
            map.spec_height() == MAP_SIZE,
            forall|i: int, j: int|
                5 <= i < 12 && 5 <= j < 12 ==> map.spec_tile(i, j) is Floor,
            forall|i: int| 4 <= i < 12 ==> map.spec_tile(i, 4) is Wall && map.spec_tile(
                i,
                12,
            ) is Wall,
            forall|j: int| 4 <= j < y ==> map.spec_tile(4, j) is Wall && map.spec_tile(
                12,
                j,
            ) is Wall,
            forall|i: int, j: int|
                map.in_bounds(i, j) && !(4 <= i <= 12 && 4 <= j <= 12)
                    ==> is_empty_road(#[trigger] map.spec_tile(i, j)),
            is_empty_road(map.spec_tile(12, 12)),
        decreases MAP_SIZE - y,
    {
        let ghost pre1 = map;
        map.set_tile_at(4, y, Tiles::Wall);
        proof {
            MapHandler::lemma_update_other(pre1, map, 4, y as int, Tiles::Wall);
        }
        let ghost pre2 = map;
        map.set_tile_at(MAP_SIZE - 4, y, Tiles::Wall);
        proof {
            MapHandler::lemma_update_other(pre2, map, 12, y as int, Tiles::Wall);
            assert forall|i: int, j: int|
                map.in_bounds(i, j) && !(4 <= i <= 12 && 4 <= j <= 12) implies is_empty_road(
                map.spec_tile(i, j),
            ) by {
                assert(pre1.in_bounds(i, j) && pre2.in_bounds(i, j));
                assert(map.spec_tile(i, j) == pre2.spec_tile(i, j));
                assert(pre2.spec_tile(i, j) == pre1.spec_tile(i, j));
                assert(is_empty_road(pre1.spec_tile(i, j)));
            }
            assert(map.spec_tile(12, 12) == pre2.spec_tile(12, 12));
            assert(pre2.spec_tile(12, 12) == pre1.spec_tile(12, 12));
        }
        y = y + 1;
    }

    let mut corner = ItemContainer::new();
    corner.add(Items::Food);
    let ghost pre3 = map;
    map.set_tile_at(0, 0, Tiles::Road(RoadTile(Box::new(corner))));
    proof {
        lemma_row_major_in_range(pre3.spec_width(), pre3.spec_height(), 0, 0);
        MapHandler::lemma_update_other(pre3, map, 0, 0, map.spec_tile(0, 0));
    }

    let ghost pre4 = map;
    map.set_tile_at(8, 4, Tiles::Door(false));
    proof {
        MapHandler::lemma_update_other(pre4, map, 8, 4, Tiles::Door(false));
        assert forall|i: int, j: int|
            map.in_bounds(i, j) && !(4 <= i <= 12 && 4 <= j <= 12) && !(i == 0 && j == 0)
                implies is_empty_road(map.spec_tile(i, j)) by {
            assert(pre3.in_bounds(i, j) && pre4.in_bounds(i, j));
            assert(map.spec_tile(i, j) == pre4.spec_tile(i, j));
            assert(pre4.spec_tile(i, j) == pre3.spec_tile(i, j));
            assert(is_empty_road(pre3.spec_tile(i, j)));
        }
        assert(map.spec_tile(12, 12) == pre4.spec_tile(12, 12));
        assert(pre4.spec_tile(12, 12) == pre3.spec_tile(12, 12));
    }

    map
}

} // verus!

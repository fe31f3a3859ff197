//! The dungeon map — a grid of wall and floor tiles — and a room-and-corridor
//! generator: random non-overlapping rooms carved into a walled map and
//! connected by L-shaped tunnels between the centers of neighboring rooms.

use vstd::prelude::*;

use crate::geometry::{Rect, UVec2};
use crate::{HEIGHT, WIDTH};

verus! {

/// The random number generator driving map generation.
#[verifier::external_type_specification]
#[verifier::external_body]
pub struct ExRng(fastrand::Rng);

/// Relies on fastrand::Rng::u32: a uniform sample within the given bounds.
/// The range must not be empty, or the call panics.
#[verifier::external_body]
fn rng_u32(rng: &fastrand::Rng, low: u32, high: u32) -> (r: u32)
    requires
        low < high,
    ensures
        low <= r < high,
{
    rng.u32(low..high)
}

/// Relies on fastrand::Rng::bool: a random boolean; nothing is promised of
/// the outcome.
#[verifier::external_body]
fn rng_bool(rng: &fastrand::Rng) -> bool {
    rng.bool()
}

/// What one map cell holds.
#[derive(Debug, Copy, Clone, PartialEq, Eq, Structural)]
pub enum TileType {
    Wall,
    Floor,
}

/// A grid of tiles, row-major with `(0, 0)` in the first slot.
#[derive(Debug, Clone)]
pub struct DungeonMap {
    /// One tile per cell, row-major.
    pub tiles: Vec<TileType>,
    /// Width in tiles.
    pub width: u32,
    /// Height in tiles.
    pub height: u32,
}

/// The row-major slot of a point.
pub open spec fn tile_slot(width: u32, point: UVec2) -> int {
    point.y * width + point.x
}

/// An in-bounds point's slot stays within the grid's cells.
proof fn lemma_tile_slot_in_bounds(width: u32, height: u32, point: UVec2)
    requires
        point.x < width,
        point.y < height,
    ensures
        0 <= tile_slot(width, point) < width * height,
{
    assert(0 <= point.y * width + point.x < width * height) by (nonlinear_arith)
        requires
            point.x < width,
            point.y < height,
    ;
}

/// A vector of `count` copies of `tile`.
fn filled_tiles(count: usize, tile: TileType) -> (v: Vec<TileType>)
    ensures
        v@.len() == count,
        forall|i: int| 0 <= i < count ==> v@[i] == tile,
{
    let mut v: Vec<TileType> = Vec::new();
    let mut i: usize = 0;
    while i < count
        invariant
            i <= count,
            v@.len() == i,
            forall|j: int| 0 <= j < i ==> v@[j] == tile,
        decreases count - i,
    {
        v.push(tile);
        i = i + 1;
    }
    v
}

impl DungeonMap {
    /// One tile per cell, and the cell count fits `u32` index arithmetic.
    pub open spec fn wf(self) -> bool {
        &&& self.tiles@.len() == self.width * self.height
        &&& self.width * self.height <= u32::MAX
    }

    /// Whether a point lies on the grid.
    pub open spec fn spec_in_bounds(self, point: UVec2) -> bool {
        point.x < self.width && point.y < self.height
    }

    /// A map of the given size, all floor.
    pub fn new(width: u32, height: u32) -> (m: DungeonMap)
        requires
            width * height <= u32::MAX,
        ensures
            m.wf(),
            m.width == width,
            m.height == height,
            forall|i: int| 0 <= i < m.tiles@.len() ==> m.tiles@[i] == TileType::Floor,
    {
        proof {
            assert(width * height <= u32::MAX) by (nonlinear_arith)
                requires
                    (width as int) * (height as int) <= u32::MAX,
            ;
        }
        let count = (width * height) as usize;
        DungeonMap { width, height, tiles: filled_tiles(count, TileType::Floor) }
    }

    /// Sets the tile at a position; a position off the grid is ignored.
    pub fn set_tile(&mut self, position: UVec2, tile: TileType)
        requires
            old(self).wf(),
        ensures
            final(self).wf(),
            final(self).width == old(self).width,
            final(self).height == old(self).height,
            old(self).spec_in_bounds(position) ==> final(self).tiles@ == old(self).tiles@.update(
                tile_slot(old(self).width, position),
                tile,
            ),
            !old(self).spec_in_bounds(position) ==> final(self).tiles@ == old(self).tiles@,
    {
        if let Some(index) = self.try_index(position) {
            self.tiles[index] = tile;
        }
    }

    /// The tile at a position: `Some` exactly on the grid, `None` off it.
    pub fn get_tile(&self, position: UVec2) -> (r: Option<TileType>)
        requires
            self.wf(),
        ensures
            self.spec_in_bounds(position) ==> r == Some(
                self.tiles@[tile_slot(self.width, position)],
            ),
            !self.spec_in_bounds(position) ==> r is None,
    {
        match self.try_index(position) {
            Some(index) => Some(self.tiles[index]),
            None => None,
        }
    }

    /// Whether a point lies on the grid.
    pub fn in_bounds(&self, point: UVec2) -> (r: bool)
        ensures
            r == self.spec_in_bounds(point),
    {
        point.x < self.width && point.y < self.height
    }

    /// Whether a point is on the grid and holds a floor tile.
    pub fn can_enter_tile(&self, point: UVec2) -> (r: bool)
        requires
            self.wf(),
        ensures
            r == (self.spec_in_bounds(point) && self.tiles@[tile_slot(self.width, point)]
                == TileType::Floor),
    {
        self.in_bounds(point) && match self.get_tile(point) {
            Some(t) => t == TileType::Floor,
            None => false,
        }
    }

    /// The slot of a point: `Some` exactly on the grid.
    fn try_index(&self, point: UVec2) -> (r: Option<usize>)
        requires
            self.wf(),
        ensures
            self.spec_in_bounds(point) ==> r == Some(
                tile_slot(self.width, point) as usize,
            ) && tile_slot(self.width, point) < self.tiles@.len(),
            !self.spec_in_bounds(point) ==> r is None,
    {
        if self.in_bounds(point) {
            proof {
                lemma_tile_slot_in_bounds(self.width, self.height, point);
            }
            Some(((point.y * self.width) + point.x) as usize)
        } else {
            None
        }
    }
}

impl Default for DungeonMap {
    /// A floor-filled map of the default size.
    fn default() -> (m: DungeonMap)
        ensures
            m.wf(),
            m.width == WIDTH,
            m.height == HEIGHT,
    {
        DungeonMap::new(WIDTH, HEIGHT)
    }
}

/// The one way generation fails: the map is not strictly wider and taller
/// than the largest room it is asked to place.
#[derive(Debug, Clone, Copy, PartialEq, Eq, Structural)]
pub struct MapBuildError {
    /// The largest room size the builder was configured with.
    pub max_room_size: u32,
}

/// The x coordinate of a rectangle's center.
pub open spec fn center_x(r: Rect) -> int {
    ((r.left() + r.right()) / 2) as int
}

/// A room the generator may carve: well formed, strictly inside a
/// `width * height` grid, and small enough for center arithmetic.
pub open spec fn room_ok(r: Rect, width: u32, height: u32) -> bool {
    &&& r.wf()
    &&& r.left() < r.right()
    &&& r.bottom() < r.top()
    &&& r.right() < width
    &&& r.top() < height
    &&& r.left() + r.right() <= u32::MAX
    &&& r.bottom() + r.top() <= u32::MAX
}

/// Builds a [`DungeonMap`]: a walled grid with up to `room_count` random
/// non-overlapping rooms carved out and connected by L-shaped tunnels.
pub struct MapBuilder {
    rooms: Vec<Rect>,
    room_count: u32,
    width: u32,
    height: u32,
    room_size: core::ops::Range<u32>,
    rng: fastrand::Rng,
}

impl MapBuilder {
    /// The rooms placed so far.
    pub closed spec fn spec_rooms(self) -> Seq<Rect> {
        self.rooms@
    }

    /// How many rooms the builder tries to place.
    pub closed spec fn spec_room_count(self) -> u32 {
        self.room_count
    }

    /// The map width in tiles.
    pub closed spec fn spec_width(self) -> u32 {
        self.width
    }

    /// The map height in tiles.
    pub closed spec fn spec_height(self) -> u32 {
        self.height
    }

    /// The half-open range room edge lengths are drawn from.
    pub closed spec fn spec_room_size(self) -> core::ops::Range<u32> {
        self.room_size
    }

    /// A builder for a `width * height` map with `room_count` rooms whose
    /// edges are drawn from `room_size`.
    pub fn new(
        room_count: u32,
        width: u32,
        height: u32,
        room_size: core::ops::Range<u32>,
        rng: fastrand::Rng,
    ) -> (b: MapBuilder)
        ensures
            b.spec_rooms() == Seq::<Rect>::empty(),
            b.spec_room_count() == room_count,
            b.spec_width() == width,
            b.spec_height() == height,
            b.spec_room_size() == room_size,
    {
        MapBuilder { rooms: Vec::new(), room_count, width, height, room_size, rng }
    }
}

/// Whether the center of a rectangle can be computed without overflow.
pub open spec fn center_safe(r: Rect) -> bool {
    &&& r.wf()
    &&& r.left() + r.right() <= u32::MAX
    &&& r.bottom() + r.top() <= u32::MAX
}

/// Cells only turn to floor: every cell either keeps its old tile or is
/// now a floor tile — in particular, floor cells stay floor.
pub open spec fn floors_monotone(old_tiles: Seq<TileType>, new_tiles: Seq<TileType>) -> bool {
    &&& new_tiles.len() == old_tiles.len()
    &&& forall|i: int|
        0 <= i < new_tiles.len() ==> (#[trigger] new_tiles[i]) == TileType::Floor || new_tiles[i]
            == old_tiles[i]
}

/// Updating one cell to floor keeps cells floor-monotone.
proof fn lemma_floors_monotone_step(base: Seq<TileType>, mid: Seq<TileType>, slot: int)
    requires
        floors_monotone(base, mid),
        0 <= slot < mid.len(),
    ensures
        floors_monotone(base, mid.update(slot, TileType::Floor)),
{
    let updated = mid.update(slot, TileType::Floor);
    assert forall|i: int| 0 <= i < updated.len() implies (#[trigger] updated[i]) == TileType::Floor
        || updated[i] == base[i] by {
        if i != slot {
            assert(updated[i] == mid[i]);
        }
    }
}

/// A copy of a rectangle list.
fn copy_rects(rects: &Vec<Rect>) -> (v: Vec<Rect>)
    ensures
        v@ == rects@,
{
    let mut v: Vec<Rect> = Vec::new();
    let n = rects.len();
    let mut i: usize = 0;
    while i < n
        invariant
            n == rects@.len(),
            i <= n,
            v@ == rects@.take(i as int),
        decreases n - i,
    {
        v.push(rects[i]);
        proof {
            assert(v@ =~= rects@.take(i as int + 1));
        }
        i = i + 1;
    }
    proof {
        assert(rects@.take(n as int) =~= rects@);
    }
    v
}

/// Returns true if the candidate room intersects any placed room.
fn any_intersect(rooms: &Vec<Rect>, candidate: &Rect) -> (r: bool)
    ensures
        r == exists|i: int| 0 <= i < rooms@.len() && (#[trigger] rooms@[i]).spec_intersect(
            *candidate,
        ),
{
    let n = rooms.len();
    let mut i: usize = 0;
    while i < n
        invariant
            n == rooms@.len(),
            i <= n,
            forall|j: int| 0 <= j < i ==> !(#[trigger] rooms@[j]).spec_intersect(*candidate),
        decreases n - i,
    {
        if rooms[i].intersect(candidate) {
            return true;
        }
        i = i + 1;
    }
    false
}

/// Sorts rooms by the x coordinate of their centers, in place. Every
/// element of the result was an element of the input.
fn sort_rooms_by_center_x(rooms: &mut Vec<Rect>)
    requires
        forall|k: int| 0 <= k < old(rooms)@.len() ==> center_safe(#[trigger] old(rooms)@[k]),
    ensures
        final(rooms)@.len() == old(rooms)@.len(),
        forall|k: int|
            0 <= k < final(rooms)@.len() ==> old(rooms)@.contains(#[trigger] final(rooms)@[k]),
        forall|p: int, q: int|
            0 <= p <= q < final(rooms)@.len() ==> center_x(final(rooms)@[p]) <= center_x(
                final(rooms)@[q],
            ),
{
    let n = rooms.len();
    let mut i: usize = 0;
    while i < n
        invariant
            n == rooms@.len(),
            i <= n,
            forall|k: int| 0 <= k < n ==> old(rooms)@.contains(#[trigger] rooms@[k]),
            forall|k: int| 0 <= k < n ==> center_safe(#[trigger] rooms@[k]),
            forall|p: int, q: int| 0 <= p <= q < i ==> center_x(rooms@[p]) <= center_x(rooms@[q]),
            forall|p: int, q: int|
                0 <= p < i <= q < n ==> center_x(rooms@[p]) <= center_x(rooms@[q]),
        decreases n - i,
    {
        let mut m: usize = i;
        let mut j: usize = i + 1;
        while j < n
            invariant
                n == rooms@.len(),
                i <= m < j <= n,
                forall|k: int| 0 <= k < n ==> center_safe(#[trigger] rooms@[k]),
                forall|q: int| i <= q < j ==> center_x(rooms@[m as int]) <= center_x(rooms@[q]),
            decreases n - j,
        {
            let cj = rooms[j].center();
            let cm = rooms[m].center();
            if cj.x < cm.x {
                m = j;
            }
            j = j + 1;
        }
        let a = rooms[i];
        let b = rooms[m];
        rooms[i] = b;
        rooms[m] = a;
        i = i + 1;
    }
}

/// Carves a room: every cell of the rectangle that lies on the grid
/// becomes floor; no cell becomes wall.
fn carve_room(map: &mut DungeonMap, room: Rect)
    requires
        old(map).wf(),
        room.wf(),
        (room.right() - room.left()) * (room.top() - room.bottom()) <= u32::MAX,
    ensures
        final(map).wf(),
        final(map).width == old(map).width,
        final(map).height == old(map).height,
        floors_monotone(old(map).tiles@, final(map).tiles@),
        forall|p: UVec2|
            room.spec_contains(p) && old(map).spec_in_bounds(p) ==> final(map).tiles@[tile_slot(
                old(map).width,
                p,
            )] == TileType::Floor,
{
    let ghost width = room.right() - room.left();
    let ghost height = room.top() - room.bottom();
    let mut points = room.points();
    loop
        invariant
            map.wf(),
            map.width == old(map).width,
            map.height == old(map).height,
            floors_monotone(old(map).tiles@, map.tiles@),
            points.wf(),
            points.index() <= points.total(),
            points.row_width() == width,
            points.total() == width * height,
            points.start_x() == room.left(),
            points.start_y() == room.bottom(),
            forall|k: int|
                0 <= k < points.index() && old(map).spec_in_bounds(#[trigger] points.point_at(k))
                    ==> map.tiles@[tile_slot(old(map).width, points.point_at(k))]
                    == TileType::Floor,
        ensures
            map.wf(),
            map.width == old(map).width,
            map.height == old(map).height,
            floors_monotone(old(map).tiles@, map.tiles@),
            points.wf(),
            points.index() == points.total(),
            points.row_width() == width,
            points.total() == width * height,
            points.start_x() == room.left(),
            points.start_y() == room.bottom(),
            forall|k: int|
                0 <= k < points.total() && old(map).spec_in_bounds(#[trigger] points.point_at(k))
                    ==> map.tiles@[tile_slot(old(map).width, points.point_at(k))]
                    == TileType::Floor,
        decreases points.total() - points.index(),
    {
        let ghost idx0 = points.index() as int;
        let ghost points0 = points;
        let ghost tiles0 = map.tiles@;
        let next = points.next();
        match next {
            Some(point) => {
                map.set_tile(point, TileType::Floor);
                proof {
                    if map.spec_in_bounds(point) {
                        lemma_tile_slot_in_bounds(map.width, map.height, point);
                        lemma_floors_monotone_step(
                            old(map).tiles@,
                            tiles0,
                            tile_slot(old(map).width, point),
                        );
                    }
                    assert forall|k: int|
                        0 <= k < points.index() && old(map).spec_in_bounds(
                            #[trigger] points.point_at(k),
                        ) implies map.tiles@[tile_slot(old(map).width, points.point_at(k))]
                        == TileType::Floor by {
                        assert(points.point_at(k) == points0.point_at(k));
                        let slot = tile_slot(old(map).width, points.point_at(k));
                        if k < idx0 {
                            assert(old(map).spec_in_bounds(points0.point_at(k)));
                            lemma_tile_slot_in_bounds(
                                old(map).width,
                                old(map).height,
                                points.point_at(k),
                            );
                            assert(tiles0[slot] == TileType::Floor);
                            if map.spec_in_bounds(point) {
                                if slot == tile_slot(old(map).width, point) {
                                    assert(map.tiles@[slot] == TileType::Floor);
                                } else {
                                    assert(map.tiles@[slot] == tiles0[slot]);
                                }
                            } else {
                                assert(map.tiles@ == tiles0);
                            }
                        } else {
                            assert(k == idx0);
                            assert(points0.point_at(k) == point);
                            assert(map.spec_in_bounds(point));
                            assert(map.tiles@[slot] == TileType::Floor);
                        }
                    }
                }
            },
            None => {
                proof {
                    assert forall|k: int|
                        0 <= k < points.index() && old(map).spec_in_bounds(
                            #[trigger] points.point_at(k),
                        ) implies map.tiles@[tile_slot(old(map).width, points.point_at(k))]
                        == TileType::Floor by {
                        assert(points.point_at(k) == points0.point_at(k));
                        assert(old(map).spec_in_bounds(points0.point_at(k)));
                    }
                }
                break ;
            },
        }
    }
    proof {
        assert forall|p: UVec2|
            room.spec_contains(p) && old(map).spec_in_bounds(p) implies map.tiles@[tile_slot(
            old(map).width,
            p,
        )] == TileType::Floor by {
            let dx = p.x - room.left();
            let dy = p.y - room.bottom();
            let k = dy * width + dx;
            assert(0 <= k < width * height && k % (width as int) == dx && k / (width as int)
                == dy) by {
                assert(0 <= dy * width + dx < width * height) by (nonlinear_arith)
                    requires
                        0 <= dx < width,
                        0 <= dy < height,
                ;
                vstd::arithmetic::div_mod::lemma_fundamental_div_mod_converse(
                    k,
                    width as int,
                    dy,
                    dx,
                );
            }
            assert(points.point_at(k) == p);
        }
    }
}

/// After one floor write, the map is still floor-monotone over the base.
proof fn floor_write_keeps_monotone(
    base: Seq<TileType>,
    before: Seq<TileType>,
    map: DungeonMap,
    position: UVec2,
)
    requires
        floors_monotone(base, before),
        map.wf(),
        map.spec_in_bounds(position) ==> map.tiles@ == before.update(
            tile_slot(map.width, position),
            TileType::Floor,
        ),
        !map.spec_in_bounds(position) ==> map.tiles@ == before,
        before.len() == map.width * map.height,
    ensures
        floors_monotone(base, map.tiles@),
{
    if map.spec_in_bounds(position) {
        lemma_tile_slot_in_bounds(map.width, map.height, position);
        lemma_floors_monotone_step(base, before, tile_slot(map.width, position));
    }
}

/// Carves a straight vertical run of floor between two rows, both ends
/// included; cells off the grid are ignored.
fn build_vertical_tunnels(map: &mut DungeonMap, y1: u32, y2: u32, x: u32)
    requires
        old(map).wf(),
    ensures
        final(map).wf(),
        final(map).width == old(map).width,
        final(map).height == old(map).height,
        floors_monotone(old(map).tiles@, final(map).tiles@),
{
    let lo: u32 = if y1 <= y2 {
        y1
    } else {
        y2
    };
    let hi: u32 = if y1 <= y2 {
        y2
    } else {
        y1
    };
    let mut y = lo;
    while y < hi
        invariant
            map.wf(),
            map.width == old(map).width,
            map.height == old(map).height,
            floors_monotone(old(map).tiles@, map.tiles@),
        decreases hi - y,
    {
        let ghost tiles0 = map.tiles@;
        map.set_tile(UVec2::new(x, y), TileType::Floor);
        proof {
            floor_write_keeps_monotone(old(map).tiles@, tiles0, *map, (UVec2 { x, y }));
        }
        y = y + 1;
    }
    let ghost tiles0 = map.tiles@;
    map.set_tile(UVec2::new(x, hi), TileType::Floor);
    proof {
        floor_write_keeps_monotone(old(map).tiles@, tiles0, *map, (UVec2 { x, y: hi }));
    }
}

/// Carves a straight horizontal run of floor between two columns, both
/// ends included; cells off the grid are ignored.
fn build_horizontal_tunnels(map: &mut DungeonMap, x1: u32, x2: u32, y: u32)
    requires
        old(map).wf(),
    ensures
        final(map).wf(),
        final(map).width == old(map).width,
        final(map).height == old(map).height,
        floors_monotone(old(map).tiles@, final(map).tiles@),
{
    let lo: u32 = if x1 <= x2 {
        x1
    } else {
        x2
    };
    let hi: u32 = if x1 <= x2 {
        x2
    } else {
        x1
    };
    let mut x = lo;
    while x < hi
        invariant
            map.wf(),
            map.width == old(map).width,
            map.height == old(map).height,
            floors_monotone(old(map).tiles@, map.tiles@),
        decreases hi - x,
    {
        let ghost tiles0 = map.tiles@;
        map.set_tile(UVec2::new(x, y), TileType::Floor);
        proof {
            floor_write_keeps_monotone(old(map).tiles@, tiles0, *map, (UVec2 { x, y }));
        }
        x = x + 1;
    }
    let ghost tiles0 = map.tiles@;
    map.set_tile(UVec2::new(hi, y), TileType::Floor);
    proof {
        floor_write_keeps_monotone(old(map).tiles@, tiles0, *map, (UVec2 { x: hi, y }));
    }
}

impl MapBuilder {
    /// Places up to `room_count` random rooms: each is strictly inside the
    /// map, none intersect, at least one is placed, and every cell of every
    /// placed room is carved to floor.
    fn build_random_rooms(&mut self, map: &mut DungeonMap)
        requires
            old(self).spec_rooms() == Seq::<Rect>::empty(),
            old(self).spec_room_count() >= 1,
            old(self).spec_room_count() <= u32::MAX / 2,
            old(self).spec_room_size().start >= 1,
            old(self).spec_room_size().start < old(self).spec_room_size().end,
            old(self).spec_width() > old(self).spec_room_size().end,
            old(self).spec_height() > old(self).spec_room_size().end,
            old(self).spec_width() <= u32::MAX / 2,
            old(self).spec_height() <= u32::MAX / 2,
            old(self).spec_room_size().end * old(self).spec_room_size().end <= u32::MAX,
            old(map).wf(),
            old(map).width == old(self).spec_width(),
            old(map).height == old(self).spec_height(),
        ensures
            final(self).spec_room_count() == old(self).spec_room_count(),
            final(self).spec_width() == old(self).spec_width(),
            final(self).spec_height() == old(self).spec_height(),
            final(self).spec_room_size() == old(self).spec_room_size(),
            1 <= final(self).spec_rooms().len() <= old(self).spec_room_count(),
            forall|i: int|
                0 <= i < final(self).spec_rooms().len() ==> room_ok(
                    #[trigger] final(self).spec_rooms()[i],
                    old(self).spec_width(),
                    old(self).spec_height(),
                ),
            forall|i: int, j: int|
                0 <= i < j < final(self).spec_rooms().len() ==> !final(self).spec_rooms()[i].spec_intersect(
                    final(self).spec_rooms()[j],
                ),
            final(map).wf(),
            final(map).width == old(map).width,
            final(map).height == old(map).height,
            floors_monotone(old(map).tiles@, final(map).tiles@),
            forall|i: int, p: UVec2|
                0 <= i < final(self).spec_rooms().len() && #[trigger] final(self).spec_rooms()[i].spec_contains(
                    p,
                ) ==> final(map).spec_in_bounds(p) && final(map).tiles@[tile_slot(
                    old(map).width,
                    p,
                )] == TileType::Floor,
    {
        let width = self.width;
        let height = self.height;
        let room_count = self.room_count;
        let cap: u32 = room_count * 2;
        let mut iteration: u32 = 0;
        while (self.rooms.len() as u32) < room_count && iteration < cap
            invariant
                self.spec_room_count() == old(self).spec_room_count(),
                self.spec_width() == old(self).spec_width(),
                self.spec_height() == old(self).spec_height(),
                self.spec_room_size() == old(self).spec_room_size(),
                width == old(self).spec_width(),
                height == old(self).spec_height(),
                room_count == old(self).spec_room_count(),
                1 <= room_count <= u32::MAX / 2,
                cap == room_count * 2,
                old(self).spec_room_size().start >= 1,
                old(self).spec_room_size().start < old(self).spec_room_size().end,
                width > old(self).spec_room_size().end,
                height > old(self).spec_room_size().end,
                width <= u32::MAX / 2,
                height <= u32::MAX / 2,
                old(self).spec_room_size().end * old(self).spec_room_size().end <= u32::MAX,
                iteration <= cap,
                self.spec_rooms().len() <= room_count,
                iteration >= 1 ==> self.spec_rooms().len() >= 1,
                iteration == 0 ==> self.spec_rooms().len() == 0,
                forall|i: int|
                    0 <= i < self.spec_rooms().len() ==> room_ok(
                        #[trigger] self.spec_rooms()[i],
                        width,
                        height,
                    ),
                forall|i: int, j: int|
                    0 <= i < j < self.spec_rooms().len() ==> !self.spec_rooms()[i].spec_intersect(
                        self.spec_rooms()[j],
                    ),
                map.wf(),
                map.width == old(map).width,
                map.height == old(map).height,
                old(map).width == width,
                old(map).height == height,
                floors_monotone(old(map).tiles@, map.tiles@),
                forall|i: int, p: UVec2|
                    0 <= i < self.spec_rooms().len() && #[trigger] self.spec_rooms()[i].spec_contains(
                        p,
                    ) ==> map.spec_in_bounds(p) && map.tiles@[tile_slot(old(map).width, p)]
                        == TileType::Floor,
            decreases cap - iteration,
        {
            let max_size = self.room_size.end;
            let min_size = self.room_size.start;
            let x = rng_u32(&self.rng, 0, width - max_size);
            let y = rng_u32(&self.rng, 0, height - max_size);
            let w = rng_u32(&self.rng, min_size, max_size);
            let h = rng_u32(&self.rng, min_size, max_size);
            let room = Rect::with_dimension(x, y, w, h);
            if !any_intersect(&self.rooms, &room) {
                proof {
                    assert((w as int) * (h as int) <= (max_size as int) * (max_size as int))
                        by (nonlinear_arith)
                        requires
                            0 < w <= max_size,
                            0 < h <= max_size,
                    ;
                }
                let ghost tiles_before = map.tiles@;
                let ghost rooms_before = self.spec_rooms();
                carve_room(map, room);
                self.rooms.push(room);
                proof {
                    assert(room_ok(room, width, height));
                    assert forall|i: int, p: UVec2|
                        0 <= i < self.spec_rooms().len() && #[trigger] self.spec_rooms()[i].spec_contains(
                            p,
                        ) implies map.spec_in_bounds(p) && map.tiles@[tile_slot(
                        old(map).width,
                        p,
                    )] == TileType::Floor by {
                        if i < rooms_before.len() {
                            assert(rooms_before[i].spec_contains(p));
                            assert(tiles_before[tile_slot(old(map).width, p)] == TileType::Floor);
                            lemma_tile_slot_in_bounds(old(map).width, old(map).height, p);
                        } else {
                            assert(self.spec_rooms()[i] == room);
                        }
                    }
                }
            }
            iteration = iteration + 1;
        }
    }

    /// Connects consecutive rooms, ordered by center, with L-shaped
    /// tunnels; cells only ever turn to floor.
    fn build_tunnels(&self, map: &mut DungeonMap)
        requires
            old(map).wf(),
            forall|k: int|
                0 <= k < self.spec_rooms().len() ==> center_safe(#[trigger] self.spec_rooms()[k]),
        ensures
            final(map).wf(),
            final(map).width == old(map).width,
            final(map).height == old(map).height,
            floors_monotone(old(map).tiles@, final(map).tiles@),
    {
        let mut rooms = copy_rects(&self.rooms);
        proof {
            assert(rooms@ == self.spec_rooms());
            assert forall|k: int| 0 <= k < rooms@.len() implies center_safe(
                #[trigger] rooms@[k],
            ) by {
                assert(center_safe(self.spec_rooms()[k]));
            }
        }
        sort_rooms_by_center_x(&mut rooms);
        proof {
            assert forall|k: int| 0 <= k < rooms@.len() implies center_safe(
                #[trigger] rooms@[k],
            ) by {
                assert(self.spec_rooms().contains(rooms@[k]));
                let j = choose|j: int|
                    0 <= j < self.spec_rooms().len() && self.spec_rooms()[j] == rooms@[k];
                assert(center_safe(self.spec_rooms()[j]));
            }
        }
        let n = rooms.len();
        if n == 0 {
            return ;
        }
        let mut i: usize = 1;
        while i < n
            invariant
                n == rooms@.len(),
                1 <= i <= n,
                forall|k: int| 0 <= k < n ==> center_safe(#[trigger] rooms@[k]),
                map.wf(),
                map.width == old(map).width,
                map.height == old(map).height,
                floors_monotone(old(map).tiles@, map.tiles@),
            decreases n - i,
        {
            let prev_center = rooms[i - 1].center();
            let next_center = rooms[i].center();
            if rng_bool(&self.rng) {
                build_horizontal_tunnels(map, prev_center.x, next_center.x, prev_center.y);
                build_vertical_tunnels(map, prev_center.y, next_center.y, next_center.x);
            } else {
                build_vertical_tunnels(map, prev_center.y, next_center.y, prev_center.x);
                build_horizontal_tunnels(map, prev_center.x, next_center.x, next_center.y);
            }
            i = i + 1;
        }
    }

    /// Generates the map: a walled grid with at least one and up to
    /// `room_count` non-overlapping rooms carved out and connected by
    /// tunnels. Fails — with the offending size — exactly when the map is
    /// not strictly wider and taller than the largest room; on success the
    /// player start is the center of the first room, which lies on the
    /// grid and holds a floor tile.
    pub fn build(&mut self) -> (r: Result<(DungeonMap, UVec2, Vec<Rect>), MapBuildError>)
        requires
            old(self).spec_rooms() == Seq::<Rect>::empty(),
            old(self).spec_room_count() >= 1,
            old(self).spec_room_count() <= u32::MAX / 2,
            old(self).spec_room_size().start >= 1,
            old(self).spec_room_size().start < old(self).spec_room_size().end,
            old(self).spec_width() <= u32::MAX / 2,
            old(self).spec_height() <= u32::MAX / 2,
            old(self).spec_width() * old(self).spec_height() <= u32::MAX,
            old(self).spec_room_size().end * old(self).spec_room_size().end <= u32::MAX,
        ensures
            r is Ok <==> old(self).spec_width() > old(self).spec_room_size().end && old(
                self,
            ).spec_height() > old(self).spec_room_size().end,
            r is Err ==> r->Err_0 == (MapBuildError {
                max_room_size: old(self).spec_room_size().end,
            }),
            r is Ok ==> ({
                let (map, player_start, rooms) = r->Ok_0;
                &&& map.wf()
                &&& map.width == old(self).spec_width()
                &&& map.height == old(self).spec_height()
                &&& 1 <= rooms@.len() <= old(self).spec_room_count()
                &&& forall|i: int|
                    0 <= i < rooms@.len() ==> room_ok(
                        #[trigger] rooms@[i],
                        old(self).spec_width(),
                        old(self).spec_height(),
                    )
                &&& forall|i: int, j: int|
                    0 <= i < j < rooms@.len() ==> !rooms@[i].spec_intersect(rooms@[j])
                &&& player_start.x == (rooms@[0].left() + rooms@[0].right()) / 2
                &&& player_start.y == (rooms@[0].bottom() + rooms@[0].top()) / 2
                &&& map.spec_in_bounds(player_start)
                &&& map.tiles@[tile_slot(map.width, player_start)] == TileType::Floor
            }),
    {
        if self.width <= self.room_size.end || self.height <= self.room_size.end {
            return Err(MapBuildError { max_room_size: self.room_size.end });
        }
        proof {
            assert(self.width * self.height <= u32::MAX) by (nonlinear_arith)
                requires
                    (self.spec_width() as int) * (self.spec_height() as int) <= u32::MAX,
            ;
        }
        let count = (self.width * self.height) as usize;
        let mut map = DungeonMap {
            width: self.width,
            height: self.height,
            tiles: filled_tiles(count, TileType::Wall),
        };
        self.build_random_rooms(&mut map);
        let ghost tiles_after_rooms = map.tiles@;
        self.build_tunnels(&mut map);
        let player_start = self.rooms[0].center();
        proof {
            assert(room_ok(self.spec_rooms()[0], old(self).spec_width(), old(self).spec_height()));
            let room = self.spec_rooms()[0];
            assert(room.left() <= (room.left() + room.right()) / 2 < room.right());
            assert(room.bottom() <= (room.bottom() + room.top()) / 2 < room.top());
            assert(self.spec_rooms()[0].spec_contains(player_start));
            lemma_tile_slot_in_bounds(map.width, map.height, player_start);
            assert(tiles_after_rooms[tile_slot(map.width, player_start)] == TileType::Floor);
        }
        let rooms = copy_rects(&self.rooms);
        Ok((map, player_start, rooms))
    }
}
} // verus!

//! A square room: a rectangular interior bounded by a wall ring, with
//! doors punched into the ring at generation time.
//!
//! Every cell of the grid is classified by its coordinates: interior
//! cells become ground, the four corners become walls, and the remaining
//! perimeter cells are door candidates. Walking the grid in row-major
//! order, each candidate becomes a door with probability
//! `1 / min(size / 2, candidates left - doors left)`; as the candidate
//! pool shrinks toward the door budget the probability rises to
//! certainty, so the budget is always exhausted.
//!
//! Corner exclusion is the only placement constraint: doors may stand
//! next to one another.

use vstd::prelude::*;
use vstd::arithmetic::div_mod::lemma_fundamental_div_mod_converse;
use crate::game::endless::ids::RoomId;
use crate::game::endless::room::Room;
use crate::tile::{Tile, default_tile, wall_tile, door_tile};
use crate::utils;

verus! {

/// Whether `(x, y)` lies on the outer ring of a `w` by `h` grid.
pub open spec fn is_perimeter(x: int, y: int, w: int, h: int) -> bool {
    x == 0 || x == w - 1 || y == 0 || y == h - 1
}

/// Whether `(x, y)` is one of the four corners of a `w` by `h` grid.
pub open spec fn is_corner(x: int, y: int, w: int, h: int) -> bool {
    (x == 0 || x == w - 1) && (y == 0 || y == h - 1)
}

/// Whether `(x, y)` may carry a door: on the ring but not a corner.
pub open spec fn is_door_candidate(x: int, y: int, w: int, h: int) -> bool {
    is_perimeter(x, y, w, h) && !is_corner(x, y, w, h)
}

/// Whether the cell at row-major index `i` may carry a door.
pub open spec fn cand_at(i: int, w: int, h: int) -> bool {
    is_door_candidate(i % w, i / w, w, h)
}

/// How many of the first `i` cells, in row-major order, may carry a door.
pub open spec fn count_cands(w: int, h: int, i: int) -> int
    decreases i,
{
    if i <= 0 {
        0
    } else {
        count_cands(w, h, i - 1) + if cand_at(i - 1, w, h) { 1int } else { 0 }
    }
}

/// How many tiles of `s` are doors.
pub open spec fn count_doors(s: Seq<Tile>) -> int
    decreases s.len(),
{
    if s.len() == 0 {
        0
    } else {
        count_doors(s.drop_last()) + if s.last().base is Door { 1int } else { 0 }
    }
}

proof fn lemma_count_doors_push(s: Seq<Tile>, t: Tile)
    ensures
        count_doors(s.push(t)) == count_doors(s) + if t.base is Door { 1int } else { 0 },
{
    assert(s.push(t).drop_last() =~= s);
    assert(s.push(t).last() == t);
}

pub proof fn lemma_count_doors_bounds(s: Seq<Tile>)
    ensures
        0 <= count_doors(s) <= s.len(),
    decreases s.len(),
{
    if s.len() > 0 {
        lemma_count_doors_bounds(s.drop_last());
    }
}

proof fn lemma_count_doors_take_step(s: Seq<Tile>, i: int)
    requires
        0 <= i < s.len(),
    ensures
        count_doors(s.take(i + 1)) == count_doors(s.take(i))
            + if s[i].base is Door { 1int } else { 0 },
{
    assert(s.take(i + 1).drop_last() =~= s.take(i));
    assert(s.take(i + 1).last() == s[i]);
}

pub proof fn lemma_count_doors_take_mono(s: Seq<Tile>, a: int, b: int)
    requires
        0 <= a <= b <= s.len(),
    ensures
        count_doors(s.take(a)) <= count_doors(s.take(b)),
    decreases b - a,
{
    if a < b {
        lemma_count_doors_take_mono(s, a, b - 1);
        lemma_count_doors_take_step(s, b - 1);
    }
}

/// A door cell of a generated grid carries the index counting the doors
/// before it, and that index is below the grid's total door count.
pub proof fn lemma_door_index_lt(s: Seq<Tile>, i: int, w: int, h: int)
    requires
        0 <= i < s.len(),
        cell_ok(s, i, w, h),
        s[i].base is Door,
    ensures
        s[i] == door_tile(count_doors(s.take(i)) as usize),
        0 <= count_doors(s.take(i)) < count_doors(s),
{
    lemma_count_doors_bounds(s.take(i));
    lemma_count_doors_take_step(s, i);
    lemma_count_doors_take_mono(s, i + 1, s.len() as int);
    assert(s.take(s.len() as int) =~= s);
}

proof fn lemma_door_with_prefix_count(s: Seq<Tile>, k: int)
    requires
        0 <= k < count_doors(s),
    ensures
        exists|i: int| 0 <= i < s.len() && count_doors(s.take(i)) == k && s[i].base is Door,
    decreases s.len(),
{
    lemma_count_doors_bounds(s);
    let dl = s.drop_last();
    if k < count_doors(dl) {
        lemma_door_with_prefix_count(dl, k);
        let i = choose|i: int| 0 <= i < dl.len() && count_doors(dl.take(i)) == k
            && dl[i].base is Door;
        assert(s.take(i) =~= dl.take(i));
        assert(s[i] == dl[i]);
    } else {
        assert(s.take(s.len() - 1) =~= dl);
        assert(s[s.len() - 1] == s.last());
        assert(count_doors(s.take(s.len() - 1)) == k && s[s.len() - 1].base is Door);
    }
}

/// Some cell of `s` is the door with index `k`.
pub open spec fn has_door_with_index(s: Seq<Tile>, k: usize) -> bool {
    exists|i: int| 0 <= i < s.len() && s[i] == door_tile(k)
}

/// Door indices of a generated room form exactly `{0, ..., n - 1}` for
/// `n` its door count: every door's index counts the doors before it and
/// lies below `n`; every index below `n` is carried by some door; and
/// doors at distinct cells carry distinct indices.
pub proof fn lemma_door_indices(room: SquareRoom)
    requires
        room.wf(),
    ensures
        forall|i: int| 0 <= i < room.tiles@.len() && room.tiles@[i].base is Door
            ==> room.tiles@[i] == door_tile(count_doors(room.tiles@.take(i)) as usize)
                && count_doors(room.tiles@.take(i)) < room.spec_num_doors(),
        forall|k: usize| k < room.spec_num_doors()
            ==> #[trigger] has_door_with_index(room.tiles@, k),
        forall|i: int, j: int| 0 <= i < j < room.tiles@.len()
            && room.tiles@[i].base is Door && room.tiles@[j].base is Door
            ==> count_doors(room.tiles@.take(i)) < count_doors(room.tiles@.take(j)),
{
    let s = room.tiles@;
    let w = room.width as int;
    let h = room.height as int;
    assert forall|i: int| 0 <= i < s.len() && s[i].base is Door
        implies s[i] == door_tile(count_doors(s.take(i)) as usize)
            && count_doors(s.take(i)) < room.spec_num_doors() by {
        lemma_door_index_lt(s, i, w, h);
    }
    assert forall|k: usize| k < room.spec_num_doors()
        implies #[trigger] has_door_with_index(s, k) by {
        lemma_door_with_prefix_count(s, k as int);
        let i = choose|i: int| 0 <= i < s.len() && count_doors(s.take(i)) == k
            && s[i].base is Door;
        lemma_door_index_lt(s, i, w, h);
        assert(s[i] == door_tile(k));
    }
    assert forall|i: int, j: int| 0 <= i < j < s.len()
        && s[i].base is Door && s[j].base is Door
        implies count_doors(s.take(i)) < count_doors(s.take(j)) by {
        lemma_count_doors_take_step(s, i);
        lemma_count_doors_take_mono(s, i + 1, j);
    }
}

/// Perimeter closure and corner exclusion: in a generated room, every
/// ring cell is a wall or a door, no corner cell is a door, and every
/// cell strictly inside the ring is bare ground.
pub proof fn lemma_room_geometry(room: SquareRoom, cx: int, cy: int)
    requires
        room.wf(),
        0 <= cx < room.width,
        0 <= cy < room.height,
    ensures
        ({
            let t = room.tiles@[cy * room.width + cx];
            &&& is_corner(cx, cy, room.width as int, room.height as int) ==> t == wall_tile()
            &&& is_perimeter(cx, cy, room.width as int, room.height as int)
                    ==> t == wall_tile() || t.base is Door
            &&& !is_perimeter(cx, cy, room.width as int, room.height as int)
                    ==> t == default_tile()
        }),
{
    let w = room.width as int;
    let h = room.height as int;
    let j = cy * w + cx;
    assert(cy * w + cx < w * h && 0 <= cy * w + cx) by (nonlinear_arith)
        requires
            0 <= cx < w,
            0 <= cy < h;
    lemma_fundamental_div_mod_converse(j, w, cy, cx);
    assert(cell_ok(room.tiles@, j, w, h));
}

proof fn lemma_count_cands_mono(w: int, h: int, a: int, b: int)
    requires
        a <= b,
    ensures
        count_cands(w, h, a) <= count_cands(w, h, b),
    decreases b - a,
{
    if a < b {
        lemma_count_cands_mono(w, h, a, b - 1);
    }
}

/// Candidates counted within row `y`, up to column `x`: the two edge rows
/// hold their non-corner cells, every other row only its two side cells.
proof fn lemma_row_count_partial(w: int, h: int, y: int, x: int)
    requires
        3 <= w,
        3 <= h,
        0 <= y < h,
        0 <= x <= w,
    ensures
        count_cands(w, h, y * w + x) == count_cands(w, h, y * w) + (
            if y == 0 || y == h - 1 {
                if x <= 1 { 0 } else if x <= w - 1 { x - 1 } else { w - 2 }
            } else {
                (if x >= 1 { 1int } else { 0 }) + (if x >= w { 1int } else { 0 })
            }
        ),
    decreases x,
{
    if x > 0 {
        lemma_row_count_partial(w, h, y, x - 1);
        let i = y * w + x - 1;
        lemma_fundamental_div_mod_converse(i, w, y, x - 1);
        assert(count_cands(w, h, i + 1) == count_cands(w, h, i)
            + if cand_at(i, w, h) { 1int } else { 0 });
    }
}

/// Candidates counted in the first `y` full rows.
proof fn lemma_rows_count(w: int, h: int, y: int)
    requires
        3 <= w,
        3 <= h,
        0 <= y <= h,
    ensures
        count_cands(w, h, y * w) == if y == 0 {
            0int
        } else if y < h {
            (w - 2) + 2 * (y - 1)
        } else {
            2 * w + 2 * h - 8
        },
    decreases y,
{
    if y > 0 {
        lemma_rows_count(w, h, y - 1);
        lemma_row_count_partial(w, h, y - 1, w);
        assert((y - 1) * w + w == y * w) by (nonlinear_arith);
    }
}

/// A `w` by `h` grid has exactly `2w + 2h - 8` door candidates: the
/// perimeter cells minus the four corners.
pub proof fn lemma_total_candidates(w: int, h: int)
    requires
        3 <= w,
        3 <= h,
    ensures
        count_cands(w, h, w * h) == 2 * w + 2 * h - 8,
{
    lemma_rows_count(w, h, h);
    assert(h * w == w * h) by (nonlinear_arith);
}

/// What the cell at row-major index `i` of a generated room must hold:
/// ground inside, walls on the ring, and on a candidate cell either a
/// wall or the door whose index counts the doors placed before it.
pub open spec fn cell_ok(s: Seq<Tile>, i: int, w: int, h: int) -> bool {
    let x = i % w;
    let y = i / w;
    if is_door_candidate(x, y, w, h) {
        s[i] == wall_tile() || s[i] == door_tile(count_doors(s.take(i)) as usize)
    } else if is_perimeter(x, y, w, h) {
        s[i] == wall_tile()
    } else {
        s[i] == default_tile()
    }
}

/// The arguments under which a square room can be generated: room large
/// enough to hold a ring around an interior, sizes within machine
/// limits, and a door budget within the candidate cells of the ring.
pub open spec fn square_gen_pre(num_doors: usize, width: usize, height: usize) -> bool {
    &&& 3 <= width
    &&& 3 <= height
    &&& width * height <= usize::MAX
    &&& 2 * width + 2 * height <= usize::MAX
    &&& num_doors <= 2 * width + 2 * height - 8
}

/// A rectangular room bounded by a wall ring, with doors in the ring.
pub struct SquareRoom {
    pub uuid: RoomId,
    pub width: usize,
    pub height: usize,
    pub tiles: Vec<Tile>,
}

impl SquareRoom {
    /// A generated square room: a full row-major grid whose every cell
    /// is classified by `cell_ok`.
    pub open spec fn wf(&self) -> bool {
        &&& 3 <= self.width
        &&& 3 <= self.height
        &&& self.width * self.height <= usize::MAX
        &&& self.tiles@.len() == self.width * self.height
        &&& forall|i: int| 0 <= i < self.tiles@.len()
                ==> cell_ok(self.tiles@, i, self.width as int, self.height as int)
    }

    /// The number of doors this room carries.
    pub open spec fn spec_num_doors(&self) -> int {
        count_doors(self.tiles@)
    }

    /// Can a door stand at `(x, y)`? Only corners are excluded.
    fn is_valid_door_position(x: usize, y: usize, width: usize, height: usize) -> (r: bool)
        requires
            width >= 1,
            height >= 1,
        ensures
            r == !is_corner(x as int, y as int, width as int, height as int),
    {
        !((x == 0 || x == width - 1) && (y == 0 || y == height - 1))
    }

    /// Walks the grid in row-major order, classifying each cell and
    /// spending the door budget on candidate cells at rising probability
    /// until it is exhausted.
    fn fill_tiles(&mut self, width: usize, height: usize, num_doors: usize)
        requires
            old(self).width == width,
            old(self).height == height,
            square_gen_pre(num_doors, width, height),
        ensures
            final(self).uuid == old(self).uuid,
            final(self).width == width,
            final(self).height == height,
            final(self).wf(),
            count_doors(final(self).tiles@) == num_doors,
    {
        let size = width * height;
        let ghost w = width as int;
        let ghost h = height as int;
        proof {
            lemma_total_candidates(w, h);
            assert(count_doors(Seq::<Tile>::empty()) == 0);
            assert(size >= 9) by (nonlinear_arith)
                requires
                    3 <= width,
                    3 <= height,
                    size == width * height;
        }

        let mut tiles: Vec<Tile> = Vec::new();
        let mut num_doors_left = num_doors;
        let mut num_walls_left = width * 2 + height * 2 - 8;

        let mut i: usize = 0;
        let mut x: usize = 0;
        let mut y: usize = 0;
        while i < size
            invariant
                3 <= width,
                3 <= height,
                w == width as int,
                h == height as int,
                size == width * height,
                size <= usize::MAX,
                i <= size,
                i == y * width + x,
                x < width,
                tiles@.len() == i,
                num_doors_left <= num_doors,
                count_doors(tiles@) == num_doors - num_doors_left,
                num_walls_left == count_cands(w, h, size as int) - count_cands(w, h, i as int),
                num_doors_left <= num_walls_left,
                forall|j: int| 0 <= j < i ==> cell_ok(tiles@, j, w, h),
            decreases size - i,
        {
            proof {
                assert(y < height) by (nonlinear_arith)
                    requires
                        i < size,
                        i == y * width + x,
                        x < width,
                        size == width * height;
                assert(size >= 9) by (nonlinear_arith)
                    requires
                        3 <= width,
                        3 <= height,
                        size == width * height;
                lemma_fundamental_div_mod_converse(i as int, w, y as int, x as int);
                lemma_count_cands_mono(w, h, i as int + 1, size as int);
                assert(count_cands(w, h, i as int + 1) == count_cands(w, h, i as int)
                    + if cand_at(i as int, w, h) { 1int } else { 0 });
            }
            let ghost tiles0 = tiles@;
            let is_wall = x == 0 || x == width - 1 || y == 0 || y == height - 1;
            let valid_door = Self::is_valid_door_position(x, y, width, height);

            if !is_wall {
                tiles.push(Tile::default());
                proof {
                    lemma_count_doors_push(tiles0, default_tile());
                }
            } else {
                let is_door = if valid_door && num_doors_left > 0 {
                    let diff = num_walls_left - num_doors_left;
                    if diff == 0 {
                        true
                    } else {
                        let min_clamp = if size / 2 < diff { size / 2 } else { diff };
                        utils::rnd_lt(min_clamp) == 0
                    }
                } else {
                    false
                };

                if is_door {
                    let idx = num_doors - num_doors_left;
                    tiles.push(Tile::door(idx));
                    num_doors_left = num_doors_left - 1;
                    proof {
                        lemma_count_doors_push(tiles0, door_tile(idx));
                    }
                } else {
                    tiles.push(Tile::wall());
                    proof {
                        lemma_count_doors_push(tiles0, wall_tile());
                    }
                }

                if valid_door {
                    num_walls_left = num_walls_left - 1;
                }
            }

            proof {
                assert(tiles@.len() == i + 1);
                assert forall|j: int| 0 <= j < i implies cell_ok(tiles@, j, w, h) by {
                    assert(cell_ok(tiles0, j, w, h));
                    assert(tiles@.take(j) =~= tiles0.take(j));
                    assert(tiles@[j] == tiles0[j]);
                }
                assert(tiles@.take(i as int) =~= tiles0);
                assert(cell_ok(tiles@, i as int, w, h));
            }

            proof {
                assert((y as int + 1) * (width as int)
                    == (y as int) * (width as int) + (width as int)) by (nonlinear_arith);
            }
            i = i + 1;
            x = x + 1;
            if x == width {
                x = 0;
                y = y + 1;
            }
        }

        // The door budget is always exhausted: once as few candidate
        // cells remain as doors, every remaining candidate is a door.
        proof {
            assert(num_walls_left == 0);
            assert(num_doors_left == 0);
        }

        self.tiles = tiles;
    }
}

impl Room for SquareRoom {
    open spec fn gen_pre(num_doors: usize, width: usize, height: usize) -> bool {
        square_gen_pre(num_doors, width, height)
    }

    open spec fn inv(&self) -> bool {
        self.wf()
    }

    fn new(uuid: RoomId, num_doors: usize, width: usize, height: usize) -> (r: Self)
        ensures
            r.wf(),
            r.uuid == uuid,
            r.width == width,
            r.height == height,
            count_doors(r.tiles@) == num_doors,
    {
        let mut res = Self { uuid, width, height, tiles: Vec::new() };
        res.fill_tiles(width, height, num_doors);
        res
    }

    fn get_uuid(&self) -> (r: RoomId)
        ensures
            r == self.uuid,
    {
        self.uuid
    }

    fn get_width(&self) -> (r: usize)
        ensures
            r == self.width,
    {
        self.width
    }

    fn get_height(&self) -> (r: usize)
        ensures
            r == self.height,
    {
        self.height
    }

    fn get_tile(&self, x: usize, y: usize) -> (r: Option<&Tile>)
        ensures
            x < self.width && y < self.height ==> (r matches Some(t)
                && *t == self.tiles@[y as int * self.width as int + x as int]),
            !(x < self.width && y < self.height) ==> r is None,
    {
        if x >= self.width || y >= self.height {
            None
        } else {
            proof {
                assert((y as int) * (self.width as int) + (x as int)
                    < (self.width as int) * (self.height as int)) by (nonlinear_arith)
                    requires
                        (x as int) < (self.width as int),
                        (y as int) < (self.height as int);
            }
            Some(&self.tiles[y * self.width + x])
        }
    }
}

} // verus!

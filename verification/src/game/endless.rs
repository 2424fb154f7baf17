//! The endless dungeon: a graph of rooms joined by paired doors, the
//! explorer moving through it, and the player-centered viewport over the
//! current room.
//!
//! The dungeon is an arena of rooms keyed by their stable identities,
//! plus a symmetric link table from (room, door index) to
//! (room, door index). Links are always inserted in both directions at
//! once, and each room is generated with exactly as many doors as the
//! link table assigns it, so every door tile has a link and every link
//! ends at a real door.

pub mod ids;
pub mod player;
pub mod room;

use vstd::prelude::*;
use vstd::arithmetic::div_mod::lemma_fundamental_div_mod_converse;
use vstd::string::StringExecFns;
use crate::console::{ArrowType, InputType};
use crate::game::Game;
use crate::game::endless::ids::{RoomId, fresh_room_id, room_id_hex, room_id_digits};
use crate::game::endless::player::Player;
use crate::game::endless::room::Room;
use crate::game::endless::room::square::{
    SquareRoom, cell_ok, count_doors, is_door_candidate, square_gen_pre, lemma_door_index_lt,
    lemma_count_doors_bounds,
};
use crate::tile::{Tile, default_tile, player_tile, void_tile};
use crate::tile::base::Base;
use crate::ui::{MessagePosition, MessageType, Ui};
use crate::utils;

verus! {

/// One side of a door link: a room identity and a door index within it.
pub type RoomDoor = (RoomId, usize);

/// Some entry of `links` is keyed by `key`.
pub open spec fn table_has_key(links: Seq<(RoomDoor, RoomDoor)>, key: RoomDoor) -> bool {
    exists|i: int| 0 <= i < links.len() && links[i].0 == key
}

/// The flavor line number `k`, appended to every narrative message.
pub open spec fn flavor_text(k: int) -> Seq<char> {
    if k == 0 {
        "Message number 0."@
    } else if k == 1 {
        "Message number 1."@
    } else if k == 2 {
        "Message number 2."@
    } else if k == 3 {
        "Message number 3."@
    } else {
        "Message number 4."@
    }
}

/// The text of a narrative message: a greeting to a random name, the
/// room's identity in display form, and a flavor line.
pub open spec fn narrative_text(name: Seq<char>, room: RoomId, flavor: Seq<char>) -> Seq<char> {
    "Hello "@ + name + ", you are now in room "@ + room_id_digits(room) + ". "@ + flavor
}

/// `u` is a narrative event announcing arrival in `room`: a static
/// bottom-of-screen message over a ten-character random name and one of
/// the five flavor lines.
pub open spec fn is_narrative(u: Ui, room: RoomId) -> bool {
    u matches Ui::Message(t, p, s) && t == MessageType::Static && p == MessagePosition::Bottom
        && exists|name: Seq<char>, k: int|
            #![auto]
            name.len() == 10 && 0 <= k < 5 && s@ == narrative_text(name, room, flavor_text(k))
}

/// The coordinates one step from `(x, y)` in the direction of `arrow`.
pub open spec fn arrow_step(arrow: ArrowType, x: int, y: int) -> (int, int) {
    match arrow {
        ArrowType::Left => (x - 1, y),
        ArrowType::Right => (x + 1, y),
        ArrowType::Up => (x, y - 1),
        ArrowType::Down => (x, y + 1),
    }
}

/// The tile shown at viewport cell `(sx, sy)` for a player at
/// `(px, py)` in `room` and a buffer of `bw` by `bh` cells: the player
/// at the exact center, the room's tile where the window overlaps the
/// room, void everywhere else.
pub open spec fn viewport_tile(
    room: SquareRoom,
    px: int,
    py: int,
    bw: int,
    bh: int,
    sx: int,
    sy: int,
) -> Tile {
    let wx = px + sx - bw / 2;
    let wy = py + sy - bh / 2;
    if wx == px && wy == py {
        player_tile()
    } else if 0 <= wx < room.width && 0 <= wy < room.height {
        room.tiles@[wy * room.width + wx]
    } else {
        void_tile()
    }
}

/// The dungeon and the session state around it: an arena of rooms, the
/// symmetric door link table, the explorer, and the frame buffer.
pub struct EndlessGame {
    pub rooms: Vec<SquareRoom>,
    /// If (a, b) is in links, then (b, a) is in links.
    pub links: Vec<(RoomDoor, RoomDoor)>,
    pub player: Player,
    /// None when the buffer is invalid, i.e. does not match the size.
    pub buffer: Option<Vec<Tile>>,
    pub buf_width: usize,
    pub buf_height: usize,
}

impl EndlessGame {
    pub open spec fn has_room(self, id: RoomId) -> bool {
        exists|i: int| 0 <= i < self.rooms@.len() && self.rooms@[i].uuid == id
    }

    pub open spec fn room_index(self, id: RoomId) -> int {
        choose|i: int| 0 <= i < self.rooms@.len() && self.rooms@[i].uuid == id
    }

    /// The room with the given identity.
    pub open spec fn spec_room(self, id: RoomId) -> SquareRoom {
        self.rooms@[self.room_index(id)]
    }

    pub open spec fn has_link(self, from: RoomDoor) -> bool {
        table_has_key(self.links@, from)
    }

    pub open spec fn link_index(self, from: RoomDoor) -> int {
        choose|i: int| 0 <= i < self.links@.len() && self.links@[i].0 == from
    }

    /// Where the given door leads: the opposite side of its link.
    pub open spec fn link_to(self, from: RoomDoor) -> RoomDoor {
        self.links@[self.link_index(from)].1
    }

    /// Every room is well formed and identities are never shared.
    pub open spec fn rooms_wf(self) -> bool {
        &&& forall|i: int| 0 <= i < self.rooms@.len() ==> (#[trigger] self.rooms@[i]).wf()
        &&& forall|i: int, j: int| 0 <= i < j < self.rooms@.len()
                ==> self.rooms@[i].uuid != self.rooms@[j].uuid
    }

    /// The identities of the rooms, in arena order.
    pub open spec fn room_ids(self) -> Seq<RoomId> {
        self.rooms@.map_values(|r: SquareRoom| r.uuid)
    }

    /// The door count of each room, in arena order.
    pub open spec fn door_counts(self) -> Seq<usize> {
        self.rooms@.map_values(|r: SquareRoom| count_doors(r.tiles@) as usize)
    }

    /// The link table is a symmetric partial bijection between the doors
    /// of the arena's rooms.
    pub open spec fn links_wf(self) -> bool {
        links_invariant(self.links@, self.room_ids(), self.door_counts())
    }

    /// The explorer stands strictly inside the interior of a room that
    /// exists.
    pub open spec fn player_wf(self) -> bool {
        &&& self.has_room(self.player.room)
        &&& 1 <= self.player.x < self.spec_room(self.player.room).width - 1
        &&& 1 <= self.player.y < self.spec_room(self.player.room).height - 1
    }

    /// The buffer, when present, matches the current dimensions, and the
    /// dimensions fit the machine.
    pub open spec fn buffer_wf(self) -> bool {
        &&& self.buf_width * self.buf_height <= usize::MAX
        &&& self.buffer matches Some(b) ==> b@.len() == self.buf_width * self.buf_height
    }

    pub open spec fn wf(self) -> bool {
        &&& self.rooms_wf()
        &&& self.links_wf()
        &&& self.player_wf()
        &&& self.buffer_wf()
    }

    /// The tile one step ahead of the explorer in the direction of
    /// `arrow`, within its current room.
    pub open spec fn tile_ahead(self, arrow: ArrowType) -> Tile {
        let room = self.spec_room(self.player.room);
        let (nx, ny) = arrow_step(arrow, self.player.x as int, self.player.y as int);
        room.tiles@[ny * room.width + nx]
    }

    /// The room at position `k` of the arena is the one its identity
    /// looks up.
    pub proof fn lemma_room_index_is(self, k: int)
        requires
            self.rooms_wf(),
            0 <= k < self.rooms@.len(),
        ensures
            self.has_room(self.rooms@[k].uuid),
            self.room_index(self.rooms@[k].uuid) == k,
            self.spec_room(self.rooms@[k].uuid) == self.rooms@[k],
    {
        let id = self.rooms@[k].uuid;
        assert(self.has_room(id));
        let i = self.room_index(id);
        assert(0 <= i < self.rooms@.len() && self.rooms@[i].uuid == id);
        if i != k {
            if i < k {
                assert(self.rooms@[i].uuid != self.rooms@[k].uuid);
            } else {
                assert(self.rooms@[k].uuid != self.rooms@[i].uuid);
            }
        }
    }

    /// The entry at position `i` of the link table is the one its key
    /// looks up.
    pub proof fn lemma_link_index_is(self, i: int)
        requires
            self.links_wf(),
            0 <= i < self.links@.len(),
        ensures
            self.has_link(self.links@[i].0),
            self.link_index(self.links@[i].0) == i,
            self.link_to(self.links@[i].0) == self.links@[i].1,
    {
        let key = self.links@[i].0;
        assert(self.has_link(key));
        let j = self.link_index(key);
        assert(0 <= j < self.links@.len() && self.links@[j].0 == key);
    }
}

/// Door symmetry: every link's opposite side is itself a linked door,
/// and following it leads back. For every entry (A, i) -> (B, j) of a
/// well-formed dungeon, the entry (B, j) -> (A, i) exists.
pub proof fn lemma_link_symmetry(g: EndlessGame, from: RoomDoor)
    requires
        g.wf(),
        g.has_link(from),
    ensures
        g.has_link(g.link_to(from)),
        g.link_to(g.link_to(from)) == from,
{
    let i = g.link_index(from);
    assert(0 <= i < g.links@.len() && g.links@[i].0 == from);
    g.lemma_link_index_is(i);
    let j = choose|j: int|
        0 <= j < g.links@.len() && g.links@[j] == (g.links@[i].1, g.links@[i].0);
    g.lemma_link_index_is(j);
}

/// What the base of a tile says about its cell in a generated room:
/// ground lies strictly inside the ring, doors sit on the ring outside
/// the corners, and no cell holds a message, water, player or void tile.
proof fn lemma_cell_base(room: SquareRoom, cx: int, cy: int)
    requires
        room.wf(),
        0 <= cx < room.width,
        0 <= cy < room.height,
    ensures
        ({
            let t = room.tiles@[cy * room.width + cx];
            &&& t.base is Ground ==> t == default_tile() && 1 <= cx < room.width - 1
                    && 1 <= cy < room.height - 1
            &&& t.base is Door ==> is_door_candidate(cx, cy, room.width as int, room.height as int)
                    && t == crate::tile::door_tile(
                        count_doors(room.tiles@.take(cy * room.width + cx)) as usize)
                    && 0 <= count_doors(room.tiles@.take(cy * room.width + cx))
                    && count_doors(room.tiles@.take(cy * room.width + cx))
                        < room.spec_num_doors()
            &&& !(t.base is Message) && !(t.base is Water) && !(t.base is Player)
                    && !(t.base is Void)
        }),
{
    let w = room.width as int;
    let h = room.height as int;
    let j = cy * w + cx;
    assert(cy * w + cx < w * h && 0 <= cy * w + cx) by (nonlinear_arith)
        requires
            0 <= cx < w,
            0 <= cy < h;
    lemma_fundamental_div_mod_converse(j, w, cy, cx);
    assert(cell_ok(room.tiles@, j, w, h));
    if room.tiles@[j].base is Door {
        lemma_door_index_lt(room.tiles@, j, w, h);
    }
}

/// The position of the room with the given identity, if any.
fn find_room_index(rooms: &Vec<SquareRoom>, id: RoomId) -> (r: Option<usize>)
    ensures
        r matches Some(i) ==> i < rooms@.len() && rooms@[i as int].uuid == id,
        r is None ==> forall|i: int| 0 <= i < rooms@.len() ==> rooms@[i].uuid != id,
{
    let mut i: usize = 0;
    while i < rooms.len()
        invariant
            i <= rooms@.len(),
            forall|j: int| 0 <= j < i ==> rooms@[j].uuid != id,
        decreases rooms@.len() - i,
    {
        if rooms[i].uuid == id {
            return Some(i);
        }
        i = i + 1;
    }
    None
}

/// The opposite side of the link keyed by `(from_room, from_door)`, if
/// that key is in the table.
fn find_link(links: &Vec<(RoomDoor, RoomDoor)>, from_room: RoomId, from_door: usize) -> (r: Option<
    RoomDoor,
>)
    ensures
        r matches Some(t) ==> exists|i: int|
            0 <= i < links@.len() && links@[i] == (((from_room, from_door), t)),
        r is None ==> forall|i: int| 0 <= i < links@.len()
            ==> (#[trigger] links@[i]).0 != (from_room, from_door),
{
    let mut i: usize = 0;
    while i < links.len()
        invariant
            i <= links@.len(),
            forall|j: int| 0 <= j < i ==> (#[trigger] links@[j]).0 != (from_room, from_door),
        decreases links@.len() - i,
    {
        let entry = &links[i];
        if entry.0.0 == from_room && entry.0.1 == from_door {
            let t = (entry.1.0, entry.1.1);
            proof {
                assert(links@[i as int] == (((from_room, from_door), t)));
            }
            return Some(t);
        }
        i = i + 1;
    }
    None
}


/// The link table, seen against the room order and the door counts
/// assigned so far: keys unique, symmetric, two distinct rooms per entry,
/// every endpoint below its room's count, every assigned index present.
pub open spec fn links_invariant(
    links: Seq<(RoomDoor, RoomDoor)>,
    uuids: Seq<RoomId>,
    dc: Seq<usize>,
) -> bool {
    &&& forall|i: int| 0 <= i < links.len() ==> exists|k2: int|
            0 <= k2 < uuids.len() && (#[trigger] links[i]).0.0 == uuids[k2]
                && links[i].0.1 < dc[k2]
    &&& forall|i: int, j: int|
            0 <= i < links.len() && 0 <= j < links.len() && i != j
            ==> (#[trigger] links[i]).0 != (#[trigger] links[j]).0
    &&& forall|i: int| 0 <= i < links.len() ==> exists|j: int|
            0 <= j < links.len() && links[j] == ((#[trigger] links[i]).1, links[i].0)
    &&& forall|i: int| 0 <= i < links.len()
            ==> (#[trigger] links[i]).0.0 != links[i].1.0
    &&& forall|k2: int, d: usize| 0 <= k2 < uuids.len() && d < dc[k2]
            ==> #[trigger] table_has_key(links, (uuids[k2], d))
}

/// Extending the link table with one link, in both directions at once,
/// keeps it a symmetric partial bijection over the assigned door counts.
#[verifier::rlimit(50)]
proof fn lemma_links_extend(
    uuids: Seq<RoomId>,
    links0: Seq<(RoomDoor, RoomDoor)>,
    dc0: Seq<usize>,
    links1: Seq<(RoomDoor, RoomDoor)>,
    dc1: Seq<usize>,
    room0: int,
    room1: int,
)
    requires
        forall|a: int, b: int| 0 <= a < b < uuids.len() ==> uuids[a] != uuids[b],
        dc0.len() == uuids.len(),
        dc1.len() == uuids.len(),
        0 <= room0 < uuids.len(),
        0 <= room1 < uuids.len(),
        room0 != room1,
        dc0[room0] < usize::MAX,
        dc0[room1] < usize::MAX,
        dc1[room0] == dc0[room0] + 1,
        dc1[room1] == dc0[room1] + 1,
        forall|k: int| 0 <= k < dc0.len() && k != room0 && k != room1
            ==> dc1[k] == #[trigger] dc0[k],
        links1.len() == links0.len() + 2,
        links1[links0.len() as int]
            == ((uuids[room0], dc0[room0]), (uuids[room1], dc0[room1])),
        links1[links0.len() as int + 1]
            == ((uuids[room1], dc0[room1]), (uuids[room0], dc0[room0])),
        forall|i: int| 0 <= i < links0.len() ==> links1[i] == #[trigger] links0[i],
        links_invariant(links0, uuids, dc0),
    ensures
        links_invariant(links1, uuids, dc1),
{
    let n = links0.len() as int;
    let uuid0 = uuids[room0];
    let uuid1 = uuids[room1];
    let door0 = dc0[room0];
    let door1 = dc0[room1];
    assert(uuid0 != uuid1) by {
        if room0 < room1 {
            assert(uuids[room0] != uuids[room1]);
        } else {
            assert(uuids[room1] != uuids[room0]);
        }
    }
    // an older key on one of the two rooms sits below its old count, so
    // it cannot collide with either fresh key
    assert forall|i: int| 0 <= i < n implies (#[trigger] links1[i]).0 != (uuid0, door0)
        && links1[i].0 != (uuid1, door1) by {
        let k2 = choose|k2: int|
            0 <= k2 < uuids.len() && links0[i].0.0 == uuids[k2] && links0[i].0.1 < dc0[k2];
        if links0[i].0.0 == uuid0 {
            assert(k2 == room0) by {
                if k2 < room0 {
                    assert(uuids[k2] != uuids[room0]);
                } else if k2 > room0 {
                    assert(uuids[room0] != uuids[k2]);
                }
            }
        }
        if links0[i].0.0 == uuid1 {
            assert(k2 == room1) by {
                if k2 < room1 {
                    assert(uuids[k2] != uuids[room1]);
                } else if k2 > room1 {
                    assert(uuids[room1] != uuids[k2]);
                }
            }
        }
    }
    assert forall|i: int, j: int|
        0 <= i < links1.len() && 0 <= j < links1.len() && i != j
        implies (#[trigger] links1[i]).0 != (#[trigger] links1[j]).0 by {
        if i < n && j < n {
            assert(links0[i].0 != links0[j].0);
        } else if i == n && j == n + 1 {
            assert(links1[i].0 == (uuid0, door0) && links1[j].0 == (uuid1, door1));
        } else if i == n + 1 && j == n {
            assert(links1[i].0 == (uuid1, door1) && links1[j].0 == (uuid0, door0));
        }
    }
    assert forall|i: int| 0 <= i < links1.len()
        implies (#[trigger] links1[i]).0.0 != links1[i].1.0 by {
        if i < n {
            assert(links1[i] == links0[i]);
        }
    }
    assert forall|i: int| 0 <= i < links1.len() implies exists|k2: int|
        0 <= k2 < uuids.len() && (#[trigger] links1[i]).0.0 == uuids[k2]
            && links1[i].0.1 < dc1[k2] by {
        if i < n {
            let k2 = choose|k2: int|
                0 <= k2 < uuids.len() && links0[i].0.0 == uuids[k2]
                    && links0[i].0.1 < dc0[k2];
            assert(dc1[k2] >= dc0[k2]);
            assert(0 <= k2 < uuids.len() && links1[i].0.0 == uuids[k2]
                && links1[i].0.1 < dc1[k2]);
        } else if i == n {
            assert(links1[i].0.0 == uuids[room0] && links1[i].0.1 < dc1[room0]);
        } else {
            assert(links1[i].0.0 == uuids[room1] && links1[i].0.1 < dc1[room1]);
        }
    }
    assert forall|i: int| 0 <= i < links1.len() implies exists|j: int|
        0 <= j < links1.len() && links1[j] == ((#[trigger] links1[i]).1, links1[i].0) by {
        if i < n {
            let j = choose|j: int|
                0 <= j < links0.len() && links0[j] == (links0[i].1, links0[i].0);
            assert(links1[j] == (links1[i].1, links1[i].0));
        } else if i == n {
            assert(links1[n + 1] == (links1[i].1, links1[i].0));
        } else {
            assert(links1[n] == (links1[i].1, links1[i].0));
        }
    }
    assert forall|k2: int, d: usize| 0 <= k2 < uuids.len() && d < dc1[k2]
        implies #[trigger] table_has_key(links1, (uuids[k2], d)) by {
        if k2 == room0 && d == door0 {
            assert(links1[n].0 == (uuids[k2], d));
        } else if k2 == room1 && d == door1 {
            assert(links1[n + 1].0 == (uuids[k2], d));
        } else {
            assert(d < dc0[k2]);
            assert(table_has_key(links0, (uuids[k2], d)));
            let i = choose|i: int| 0 <= i < links0.len() && links0[i].0 == (uuids[k2], d);
            assert(links1[i].0 == (uuids[k2], d));
        }
    }
}

impl EndlessGame {
    /// Builds the dungeon: allocates `num_rooms` distinct identities,
    /// inserts `num_links` links (both directions at once, each joining
    /// two distinct rooms through their next free door indices),
    /// generates every room with exactly its accumulated door count, and
    /// drops the explorer at a random interior point of a random room.
    #[verifier::rlimit(50)]
    pub fn init(&mut self, num_rooms: usize, num_links: usize)
        requires
            old(self).buffer_wf(),
            1 <= num_rooms,
            num_rooms <= usize::MAX / 2,
            num_links <= 32,
        ensures
            final(self).wf(),
            final(self).rooms@.len() == num_rooms,
            final(self).buffer == old(self).buffer,
            final(self).buf_width == old(self).buf_width,
            final(self).buf_height == old(self).buf_height,
            num_rooms == 1 ==> final(self).links@.len() == 0
                && final(self).rooms@[0].spec_num_doors() == 0,
            num_rooms > 1 ==> final(self).links@.len() == 2 * num_links,
    {
        let mut uuids: Vec<RoomId> = Vec::new();
        let mut k: usize = 0;
        while k < num_rooms
            invariant
                k <= num_rooms,
                uuids@.len() == k,
                forall|a: int, b: int| 0 <= a < b < k ==> uuids@[a] != uuids@[b],
            decreases num_rooms - k,
        {
            let id = fresh_room_id(&uuids);
            uuids.push(id);
            k = k + 1;
        }

        let mut door_cnts: Vec<usize> = vec![0; num_rooms];
        let mut links: Vec<(RoomDoor, RoomDoor)> = Vec::new();

        if num_rooms > 1 {
            let mut l: usize = 0;
            while l < num_links
                invariant
                    2 <= num_rooms <= usize::MAX / 2,
                    num_links <= 32,
                    l <= num_links,
                    uuids@.len() == num_rooms,
                    forall|a: int, b: int| 0 <= a < b < num_rooms ==> uuids@[a] != uuids@[b],
                    door_cnts@.len() == num_rooms,
                    forall|k2: int| 0 <= k2 < num_rooms ==> door_cnts@[k2] <= l,
                    links@.len() == 2 * l,
                    links_invariant(links@, uuids@, door_cnts@),
                decreases num_links - l,
            {
                let room0 = utils::rnd_lt(num_rooms);
                let off = utils::rnd_lt(num_rooms - 1);
                let t = room0 + 1 + off;
                let room1 = if t >= num_rooms { t - num_rooms } else { t };
                proof {
                    assert(room1 < num_rooms);
                    assert(room1 != room0);
                }

                let uuid0 = uuids[room0];
                let uuid1 = uuids[room1];
                let door0 = door_cnts[room0];
                let door1 = door_cnts[room1];

                let ghost links0 = links@;
                let ghost dc0 = door_cnts@;

                links.push(((uuid0, door0), (uuid1, door1)));
                links.push(((uuid1, door1), (uuid0, door0)));
                door_cnts[room0] = door0 + 1;
                door_cnts[room1] = door1 + 1;
                l = l + 1;

                proof {
                    lemma_links_extend(
                        uuids@,
                        links0,
                        dc0,
                        links@,
                        door_cnts@,
                        room0 as int,
                        room1 as int,
                    );
                }
            }
        }

        proof {
            if num_rooms == 1 {
                assert(links_invariant(links@, uuids@, door_cnts@));
            }
        }

        let mut rooms_v: Vec<SquareRoom> = Vec::new();
        let mut k: usize = 0;
        while k < num_rooms
            invariant
                k <= num_rooms,
                rooms_v@.len() == k,
                uuids@.len() == num_rooms,
                door_cnts@.len() == num_rooms,
                forall|k2: int| 0 <= k2 < num_rooms ==> door_cnts@[k2] <= 32,
                forall|i: int| 0 <= i < k ==> (#[trigger] rooms_v@[i]).uuid == uuids@[i]
                    && rooms_v@[i].wf()
                    && rooms_v@[i].spec_num_doors() == door_cnts@[i]
                    && 10 <= rooms_v@[i].width < 15 && 10 <= rooms_v@[i].height < 15,
            decreases num_rooms - k,
        {
            let rw = utils::rnd_within(10, 15);
            let rh = utils::rnd_within(10, 15);
            let nd = door_cnts[k];
            proof {
                assert(rw * rh <= 196) by (nonlinear_arith)
                    requires
                        rw < 15,
                        rh < 15;
                assert(square_gen_pre(nd, rw, rh));
            }
            let room = SquareRoom::new(uuids[k], nd, rw, rh);
            rooms_v.push(room);
            k = k + 1;
        }

        let idx = utils::rnd_lt(num_rooms);
        let rw = rooms_v[idx].width;
        let rh = rooms_v[idx].height;
        let px = utils::rnd_lt(rw - 2) + 1;
        let py = utils::rnd_lt(rh - 2) + 1;

        self.player = Player::new(uuids[idx], px, py);
        self.rooms = rooms_v;
        self.links = links;

        proof {
            // distinct identities carry from the allocation loop to the
            // arena
            assert forall|a: int, b: int| 0 <= a < b < self.rooms@.len()
                implies self.rooms@[a].uuid != self.rooms@[b].uuid by {
                assert(self.rooms@[a].uuid == uuids@[a]);
                assert(self.rooms@[b].uuid == uuids@[b]);
            }
            self.lemma_room_index_is(idx as int);
            // the loop facts speak of the identity and count sequences;
            // the arena's rooms carry exactly those
            assert forall|k2: int| 0 <= k2 < num_rooms
                implies #[trigger] self.room_ids()[k2] == uuids@[k2]
                    && self.door_counts()[k2] == door_cnts@[k2] by {
                assert(self.rooms@[k2].uuid == uuids@[k2]);
                assert(self.rooms@[k2].spec_num_doors() == door_cnts@[k2]);
                lemma_count_doors_bounds(self.rooms@[k2].tiles@);
            }
            assert(self.room_ids() =~= uuids@);
            assert(self.door_counts() =~= door_cnts@);
            assert(self.links_wf());
        }
    }

    /// One of the five flavor lines, chosen uniformly at random.
    fn mysterious_message() -> (r: &'static str)
        ensures
            exists|k: int| 0 <= k < 5 && r@ == flavor_text(k),
    {
        let d = utils::rnd_lt(5);
        match d {
            0 => {
                proof {
                    assert("Message number 0."@ == flavor_text(0));
                }
                "Message number 0."
            },
            1 => {
                proof {
                    assert("Message number 1."@ == flavor_text(1));
                }
                "Message number 1."
            },
            2 => {
                proof {
                    assert("Message number 2."@ == flavor_text(2));
                }
                "Message number 2."
            },
            3 => {
                proof {
                    assert("Message number 3."@ == flavor_text(3));
                }
                "Message number 3."
            },
            _ => {
                proof {
                    assert("Message number 4."@ == flavor_text(4));
                }
                "Message number 4."
            },
        }
    }

    /// The narrative message for arriving in `room`.
    fn narrative(room: RoomId) -> (s: String)
        ensures
            exists|name: Seq<char>, k: int|
                #![auto]
                name.len() == 10 && 0 <= k < 5
                    && s@ == narrative_text(name, room, flavor_text(k)),
    {
        let name = utils::rnd_string(10);
        let flavor = Self::mysterious_message();
        let hex = room_id_hex(room);
        let mut s = String::from_str("Hello ");
        s.append(name.as_str());
        s.append(", you are now in room ");
        s.append(hex.as_str());
        s.append(". ");
        s.append(flavor);
        proof {
            let k = choose|k: int| 0 <= k < 5 && flavor@ == flavor_text(k);
            assert(s@ =~= narrative_text(name@, room, flavor_text(k)));
        }
        s
    }
}

impl Game for EndlessGame {
    open spec fn inv(&self) -> bool {
        self.wf()
    }

    /// A fresh session: five to ten rooms joined by ten to twenty links.
    fn new(buf_width: usize, buf_height: usize) -> (r: Self)
        ensures
            r.wf(),
            5 <= r.rooms@.len() < 11,
            20 <= r.links@.len() < 42,
            r.buf_width == buf_width,
            r.buf_height == buf_height,
            r.buffer is None,
    {
        let mut res = Self {
            rooms: Vec::new(),
            links: Vec::new(),
            player: Player::nil(),
            buffer: None,
            buf_width,
            buf_height,
        };

        let num_rooms = utils::rnd_within(5, 11);
        let num_links = utils::rnd_within(10, 21);

        res.init(num_rooms, num_links);
        res
    }

    /// Resolves one input event: arrows move the explorer (rejected
    /// against walls and the void, teleporting through doors), a resize
    /// drops the stale buffer, the first frame greets, and anything else
    /// is ignored.
    fn react(&mut self, input: InputType) -> (r: Vec<Ui>)
        ensures
            final(self).rooms == old(self).rooms,
            final(self).links == old(self).links,
            !(input is Arrow) ==> final(self).player == old(self).player,
            !(input is Resize) ==> final(self).buffer == old(self).buffer
                && final(self).buf_width == old(self).buf_width
                && final(self).buf_height == old(self).buf_height,
            input is FirstFrame ==> r@.len() == 1 && is_narrative(r@[0], old(self).player.room),
            input matches InputType::Resize(w, h) ==> final(self).buffer is None
                && final(self).buf_width == w as usize
                && final(self).buf_height == h as usize
                && final(self).player == old(self).player
                && r@.len() == 0,
            input is Char || input is Func || input is Key ==> r@.len() == 0,
            input matches InputType::Arrow(arrow) ==> ({
                let t = old(self).tile_ahead(arrow);
                let (nx, ny) = arrow_step(
                    arrow,
                    old(self).player.x as int,
                    old(self).player.y as int,
                );
                &&& t.base is Ground ==> final(self).player.room == old(self).player.room
                        && final(self).player.x == nx && final(self).player.y == ny
                        && r@.len() == 0
                &&& t.base matches Base::Door(idx) ==> ({
                        let target = old(self).link_to((old(self).player.room, idx));
                        &&& old(self).has_link((old(self).player.room, idx))
                        &&& target.0 != old(self).player.room
                        &&& final(self).player.room == target.0
                        &&& 1 <= final(self).player.x
                                < old(self).spec_room(target.0).width - 1
                        &&& 1 <= final(self).player.y
                                < old(self).spec_room(target.0).height - 1
                        &&& r@.len() == 1 && is_narrative(r@[0], target.0)
                    })
                &&& !(t.base is Ground) && !(t.base is Door)
                        ==> final(self).player == old(self).player && r@.len() == 0
            }),
    {
        let mut res: Vec<Ui> = Vec::new();

        match input {
            InputType::FirstFrame => {
                let text = Self::narrative(*self.player.get_room());
                res.push(Ui::Message(MessageType::Static, MessagePosition::Bottom, text));
            },

            InputType::Arrow(arrow) => {
                let room_id = *self.player.get_room();
                let ridx = match find_room_index(&self.rooms, room_id) {
                    Some(i) => i,
                    None => {
                        proof {
                            assert(false);
                        }
                        vstd::pervasive::unreached()
                    },
                };
                proof {
                    self.lemma_room_index_is(ridx as int);
                }
                let x = self.player.get_x();
                let y = self.player.get_y();

                let (nx, ny) = match arrow {
                    ArrowType::Left => (x - 1, y),
                    ArrowType::Right => (x + 1, y),
                    ArrowType::Up => (x, y - 1),
                    ArrowType::Down => (x, y + 1),
                };

                let tile_opt = self.rooms[ridx].get_tile(nx, ny);
                proof {
                    lemma_cell_base(self.rooms@[ridx as int], nx as int, ny as int);
                }
                match tile_opt {
                    Some(t) => {
                        match &t.base {
                            Base::Ground => {
                                self.player.set_x(nx);
                                self.player.set_y(ny);
                            },
                            Base::Door(idx_ref) => {
                                let idx: usize = *idx_ref;
                                proof {
                                    assert(self.rooms@[ridx as int].uuid == room_id);
                                    assert(idx < self.rooms@[ridx as int].spec_num_doors());
                                    lemma_count_doors_bounds(self.rooms@[ridx as int].tiles@);
                                    assert(self.room_ids()[ridx as int] == room_id);
                                    assert(idx < self.door_counts()[ridx as int]);
                                    assert(table_has_key(
                                        self.links@,
                                        (self.room_ids()[ridx as int], idx),
                                    ));
                                    assert(self.has_link((room_id, idx)));
                                }
                                let target = match find_link(&self.links, room_id, idx) {
                                    Some(t2) => t2,
                                    None => {
                                        proof {
                                            assert(self.has_link((room_id, idx)));
                                            assert(false);
                                        }
                                        vstd::pervasive::unreached()
                                    },
                                };
                                proof {
                                    let i = choose|i: int|
                                        0 <= i < self.links@.len()
                                            && self.links@[i] == (((room_id, idx), target));
                                    self.lemma_link_index_is(i);
                                }
                                let tidx = match find_room_index(&self.rooms, target.0) {
                                    Some(i) => i,
                                    None => {
                                        proof {
                                            let i = choose|i: int|
                                                0 <= i < self.links@.len()
                                                    && self.links@[i]
                                                        == (((room_id, idx), target));
                                            let j = choose|j: int|
                                                0 <= j < self.links@.len()
                                                    && self.links@[j]
                                                        == (self.links@[i].1, self.links@[i].0);
                                            let k2 = choose|k2: int|
                                                0 <= k2 < self.room_ids().len()
                                                    && self.links@[j].0.0
                                                        == self.room_ids()[k2]
                                                    && self.links@[j].0.1
                                                        < self.door_counts()[k2];
                                            assert(self.rooms@[k2].uuid == target.0);
                                            assert(false);
                                        }
                                        vstd::pervasive::unreached()
                                    },
                                };
                                proof {
                                    self.lemma_room_index_is(tidx as int);
                                }
                                let tw = self.rooms[tidx].width;
                                let th = self.rooms[tidx].height;
                                let px = utils::rnd_lt(tw - 2) + 1;
                                let py = utils::rnd_lt(th - 2) + 1;

                                self.player.set_room(target.0);
                                self.player.set_x(px);
                                self.player.set_y(py);

                                let text = Self::narrative(target.0);
                                res.push(Ui::Message(
                                    MessageType::Static,
                                    MessagePosition::Bottom,
                                    text,
                                ));
                            },
                            _ => {},
                        }
                    },
                    None => {},
                }
            },

            InputType::Resize(w, h) => {
                self.buffer = None;
                self.buf_width = w as usize;
                self.buf_height = h as usize;
            },

            _ => {},
        }

        res
    }

    /// Regenerates the viewport: a `buf_width` by `buf_height` window
    /// over the current room, centered on the player.
    #[verifier::rlimit(50)]
    fn gen_buffer(&mut self) -> (r: Option<&Vec<Tile>>)
        ensures
            final(self).rooms == old(self).rooms,
            final(self).links == old(self).links,
            final(self).player == old(self).player,
            final(self).buf_width == old(self).buf_width,
            final(self).buf_height == old(self).buf_height,
            final(self).buffer matches Some(b)
                && b@.len() == old(self).buf_width * old(self).buf_height
                && (forall|sx: int, sy: int|
                    0 <= sx < old(self).buf_width && 0 <= sy < old(self).buf_height
                    ==> b@[sy * old(self).buf_width + sx] == #[trigger] viewport_tile(
                        old(self).spec_room(old(self).player.room),
                        old(self).player.x as int,
                        old(self).player.y as int,
                        old(self).buf_width as int,
                        old(self).buf_height as int,
                        sx,
                        sy,
                    ))
                && (old(self).buf_width >= 1 && old(self).buf_height >= 1
                    ==> b@[(old(self).buf_height / 2) * old(self).buf_width
                        + old(self).buf_width / 2] == player_tile()),
            r matches Some(v) ==> (final(self).buffer matches Some(b) && v@ == b@),
            r is Some,
    {
        let room_id = *self.player.get_room();
        let ridx = match find_room_index(&self.rooms, room_id) {
            Some(i) => i,
            None => {
                proof {
                    assert(false);
                }
                vstd::pervasive::unreached()
            },
        };
        proof {
            self.lemma_room_index_is(ridx as int);
        }
        let ghost room = self.rooms@[ridx as int];

        let bw = self.buf_width;
        let bh = self.buf_height;
        let size = bw * bh;
        let px = self.player.get_x();
        let py = self.player.get_y();

        let pxl = px as i128;
        let pyl = py as i128;
        let half_w = (bw as i128) / 2;
        let half_h = (bh as i128) / 2;
        let rw = self.rooms[ridx].width;
        let rh = self.rooms[ridx].height;

        let mut tiles: Vec<Tile> = Vec::new();
        let mut i: usize = 0;
        let mut sx: usize = 0;
        let mut sy: usize = 0;
        while i < size
            invariant
                size == bw * bh,
                size <= usize::MAX,
                i <= size,
                i == sy * bw + sx,
                sx == 0 || sx < bw,
                ridx < self.rooms@.len(),
                self.rooms@[ridx as int] == room,
                tiles@.len() == i,
                pxl == px as int,
                pyl == py as int,
                half_w == bw as int / 2,
                half_h == bh as int / 2,
                rw == room.width,
                rh == room.height,
                room.wf(),
                forall|j: int| 0 <= j < i ==> tiles@[j] == viewport_tile(
                    room,
                    px as int,
                    py as int,
                    bw as int,
                    bh as int,
                    (j % bw as int),
                    (j / bw as int),
                ),
            decreases size - i,
        {
            proof {
                assert(bw > 0);
                assert(sy < bh) by (nonlinear_arith)
                    requires
                        i < size,
                        i == sy * bw + sx,
                        sx < bw,
                        size == bw * bh;
                lemma_fundamental_div_mod_converse(i as int, bw as int, sy as int, sx as int);
            }

            let wx = pxl + (sx as i128) - half_w;
            let wy = pyl + (sy as i128) - half_h;

            if wx == pxl && wy == pyl {
                tiles.push(Tile::player());
            } else if wx >= 0 && wy >= 0 && wx < rw as i128 && wy < rh as i128 {
                let t_opt = self.rooms[ridx].get_tile(wx as usize, wy as usize);
                match t_opt {
                    Some(t) => {
                        proof {
                            lemma_cell_base(room, wx as int, wy as int);
                        }
                        tiles.push(t.clone());
                    },
                    None => {
                        proof {
                            assert(false);
                        }
                    },
                }
            } else {
                tiles.push(Tile::void());
            }

            proof {
                assert(tiles@[i as int] == viewport_tile(
                    room,
                    px as int,
                    py as int,
                    bw as int,
                    bh as int,
                    sx as int,
                    sy as int,
                ));
                assert forall|j: int| 0 <= j < i implies tiles@[j] == viewport_tile(
                    room,
                    px as int,
                    py as int,
                    bw as int,
                    bh as int,
                    (j % bw as int),
                    (j / bw as int),
                ) by {
                }
                assert((sy as int + 1) * (bw as int)
                    == (sy as int) * (bw as int) + (bw as int)) by (nonlinear_arith);
            }

            i = i + 1;
            sx = sx + 1;
            if sx == bw {
                sx = 0;
                sy = sy + 1;
            }
        }

        proof {
            assert forall|qx: int, qy: int| 0 <= qx < bw && 0 <= qy < bh
                implies tiles@[qy * bw + qx] == #[trigger] viewport_tile(
                    room,
                    px as int,
                    py as int,
                    bw as int,
                    bh as int,
                    qx,
                    qy,
                ) by {
                let j = qy * (bw as int) + qx;
                assert(qy * (bw as int) + qx < (bw as int) * (bh as int)
                    && 0 <= qy * (bw as int) + qx) by (nonlinear_arith)
                    requires
                        0 <= qx < bw as int,
                        0 <= qy < bh as int;
                lemma_fundamental_div_mod_converse(j, bw as int, qy, qx);
            }
            if bw >= 1 && bh >= 1 {
                let cx = bw as int / 2;
                let cy = bh as int / 2;
                assert(tiles@[cy * bw + cx] == viewport_tile(
                    room,
                    px as int,
                    py as int,
                    bw as int,
                    bh as int,
                    cx,
                    cy,
                ));
                assert(viewport_tile(room, px as int, py as int, bw as int, bh as int, cx, cy)
                    == player_tile());
                assert(tiles@[(bh / 2) * bw + bw / 2] == player_tile());
            }
        }

        self.buffer = Some(tiles);
        self.buffer.as_ref()
    }
}

} // verus!

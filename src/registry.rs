//! The connection registry: which live connection belongs to which user and
//! which rooms it receives broadcasts for, indexed both by connection and by room.

use vstd::prelude::*;

use crate::room::{Room, RoomKey};

verus! {

/// The view of an optional string.
pub open spec fn opt_view(o: Option<String>) -> Option<Seq<char>> {
    match o {
        Some(s) => Some(s@),
        None => None,
    }
}

/// Whether a list of rooms holds the room `k`.
pub open spec fn lists_room(rooms: Seq<Room>, k: RoomKey) -> bool {
    exists|i: int| 0 <= i < rooms.len() && (#[trigger] rooms[i])@ == k
}

/// No room occurs twice in the list.
pub open spec fn distinct_rooms(rooms: Seq<Room>) -> bool {
    forall|i: int, j: int| 0 <= i < j < rooms.len() ==> (#[trigger] rooms[i])@ != (#[trigger] rooms[j])@
}

proof fn lemma_lists_push(rooms: Seq<Room>, r: Room, k: RoomKey)
    ensures
        lists_room(rooms.push(r), k) <==> (lists_room(rooms, k) || r@ == k),
{
    let s = rooms.push(r);
    if lists_room(rooms, k) {
        let i = choose|i: int| 0 <= i < rooms.len() && (#[trigger] rooms[i])@ == k;
        assert(s[i] == rooms[i]);
    }
    if r@ == k {
        assert(s[rooms.len() as int] == r);
    }
    if lists_room(s, k) {
        let i = choose|i: int| 0 <= i < s.len() && (#[trigger] s[i])@ == k;
        if i < rooms.len() {
            assert(rooms[i] == s[i]);
        }
    }
}

proof fn lemma_lists_remove(rooms: Seq<Room>, p: int, k: RoomKey)
    requires
        0 <= p < rooms.len(),
        distinct_rooms(rooms),
    ensures
        lists_room(rooms.remove(p), k) <==> (lists_room(rooms, k) && rooms[p]@ != k),
        distinct_rooms(rooms.remove(p)),
{
    let s = rooms.remove(p);
    if lists_room(rooms, k) && rooms[p]@ != k {
        let i = choose|i: int| 0 <= i < rooms.len() && (#[trigger] rooms[i])@ == k;
        if i < p {
            assert(s[i] == rooms[i]);
        } else {
            assert(s[i - 1] == rooms[i]);
        }
    }
    if lists_room(s, k) {
        let i = choose|i: int| 0 <= i < s.len() && (#[trigger] s[i])@ == k;
        if i < p {
            assert(s[i] == rooms[i]);
            assert(rooms[i]@ != rooms[p]@);
        } else {
            assert(s[i] == rooms[i + 1]);
            assert(rooms[p]@ != rooms[i + 1]@);
        }
    }
    assert forall|a: int, b: int| 0 <= a < b < s.len() implies (#[trigger] s[a])@ != (#[trigger] s[b])@ by {
        let a2 = if a < p { a } else { a + 1 };
        let b2 = if b < p { b } else { b + 1 };
        assert(s[a] == rooms[a2]);
        assert(s[b] == rooms[b2]);
    }
}

proof fn lemma_ids_remove(ids: Seq<u64>, q: int, c: u64)
    requires
        0 <= q < ids.len(),
        ids.no_duplicates(),
    ensures
        ids.remove(q).contains(c) <==> (ids.contains(c) && ids[q] != c),
        ids.remove(q).no_duplicates(),
{
    let s = ids.remove(q);
    if ids.contains(c) && ids[q] != c {
        let i = choose|i: int| 0 <= i < ids.len() && ids[i] == c;
        if i < q {
            assert(s[i] == c);
        } else {
            assert(s[i - 1] == c);
        }
    }
    if s.contains(c) {
        let i = choose|i: int| 0 <= i < s.len() && s[i] == c;
        if i < q {
            assert(s[i] == ids[i]);
        } else {
            assert(s[i] == ids[i + 1]);
        }
    }
    assert forall|a: int, b: int| 0 <= a < s.len() && 0 <= b < s.len() && a != b implies s[a] != s[b] by {
        let a2 = if a < q { a } else { a + 1 };
        let b2 = if b < q { b } else { b + 1 };
        assert(s[a] == ids[a2]);
        assert(s[b] == ids[b2]);
    }
}

fn position_of_room(rooms: &Vec<Room>, room: &Room) -> (r: Option<usize>)
    ensures
        match r {
            Some(p) => p < rooms@.len() && rooms@[p as int]@ == room@,
            None => !lists_room(rooms@, room@),
        },
{
    let mut i: usize = 0;
    while i < rooms.len()
        invariant
            i <= rooms@.len(),
            forall|k: int| 0 <= k < i ==> (#[trigger] rooms@[k])@ != room@,
        decreases rooms@.len() - i,
    {
        if rooms[i].same(room) {
            return Some(i);
        }
        i = i + 1;
    }
    None
}

fn position_of_id(ids: &Vec<u64>, c: u64) -> (r: Option<usize>)
    ensures
        match r {
            Some(p) => p < ids@.len() && ids@[p as int] == c,
            None => !ids@.contains(c),
        },
{
    let mut i: usize = 0;
    while i < ids.len()
        invariant
            i <= ids@.len(),
            forall|k: int| 0 <= k < i ==> ids@[k] != c,
        decreases ids@.len() - i,
    {
        if ids[i] == c {
            return Some(i);
        }
        i = i + 1;
    }
    None
}

/// One live connection: its id, the user it was bound to, and its rooms.
struct ConnectionEntry {
    id: u64,
    user: Option<String>,
    rooms: Vec<Room>,
}

/// One room with the connections subscribed to it.
struct RoomEntry {
    room: Room,
    members: Vec<u64>,
}

/// Live connections and their room subscriptions.
///
/// The registry keeps two indices, one by connection and one by room, and
/// both always describe the same set of subscriptions.
pub struct ConnectionRegistry {
    connections: Vec<ConnectionEntry>,
    by_room: Vec<RoomEntry>,
    users: Ghost<Map<u64, Option<Seq<char>>>>,
    subs: Ghost<Set<(u64, RoomKey)>>,
}

impl ConnectionRegistry {
    /// The registered connections, each with the user bound to it, if any.
    pub closed spec fn live(&self) -> Map<u64, Option<Seq<char>>> {
        self.users@
    }

    /// The subscriptions, as pairs of a connection and a room.
    pub closed spec fn subscriptions(&self) -> Set<(u64, RoomKey)> {
        self.subs@
    }

    pub closed spec fn wf(&self) -> bool {
        let conns = self.connections@;
        let rooms = self.by_room@;
        &&& forall|i: int, j: int|
            0 <= i < j < conns.len() ==> (#[trigger] conns[i]).id != (#[trigger] conns[j]).id
        &&& forall|i: int, j: int|
            0 <= i < j < rooms.len() ==> (#[trigger] rooms[i]).room@ != (#[trigger] rooms[j]).room@
        &&& forall|c: u64|
            self.users@.contains_key(c) <==> exists|i: int|
                0 <= i < conns.len() && (#[trigger] conns[i]).id == c
        &&& forall|i: int|
            0 <= i < conns.len() ==> self.users@[(#[trigger] conns[i]).id] == opt_view(conns[i].user)
        &&& forall|i: int|
            0 <= i < conns.len() ==> distinct_rooms((#[trigger] conns[i]).rooms@)
        &&& forall|j: int| 0 <= j < rooms.len() ==> (#[trigger] rooms[j]).members@.no_duplicates()
        &&& forall|i: int, k: RoomKey|
            #![trigger lists_room(conns[i].rooms@, k)]
            #![trigger self.subs@.contains((conns[i].id, k))]
            0 <= i < conns.len() ==> (lists_room(conns[i].rooms@, k)
                <==> self.subs@.contains((conns[i].id, k)))
        &&& forall|j: int, c: u64|
            #![trigger rooms[j].members@.contains(c)]
            #![trigger self.subs@.contains((c, rooms[j].room@))]
            0 <= j < rooms.len() ==> (rooms[j].members@.contains(c)
                <==> self.subs@.contains((c, rooms[j].room@)))
        &&& forall|p: (u64, RoomKey)|
            #[trigger] self.subs@.contains(p) ==> self.users@.contains_key(p.0)
        &&& forall|p: (u64, RoomKey)|
            #[trigger] self.subs@.contains(p) ==> exists|j: int|
                0 <= j < rooms.len() && (#[trigger] rooms[j]).room@ == p.1
    }

    /// An empty registry.
    pub fn new() -> (r: Self)
        ensures
            r.wf(),
            r.live() == Map::<u64, Option<Seq<char>>>::empty(),
            r.subscriptions() == Set::<(u64, RoomKey)>::empty(),
    {
        ConnectionRegistry {
            connections: Vec::new(),
            by_room: Vec::new(),
            users: Ghost(Map::empty()),
            subs: Ghost(Set::empty()),
        }
    }

    fn find_connection(&self, conn: u64) -> (r: Option<usize>)
        requires
            self.wf(),
        ensures
            match r {
                Some(i) => i < self.connections@.len() && self.connections@[i as int].id == conn,
                None => !self.live().contains_key(conn),
            },
    {
        let mut i: usize = 0;
        while i < self.connections.len()
            invariant
                i <= self.connections@.len(),
                forall|k: int| 0 <= k < i ==> self.connections@[k].id != conn,
            decreases self.connections@.len() - i,
        {
            if self.connections[i].id == conn {
                return Some(i);
            }
            i = i + 1;
        }
        None
    }

    fn find_room(&self, room: &Room) -> (r: Option<usize>)
        requires
            self.wf(),
        ensures
            match r {
                Some(j) => j < self.by_room@.len() && self.by_room@[j as int].room@ == room@,
                None => forall|j: int|
                    0 <= j < self.by_room@.len() ==> self.by_room@[j].room@ != room@,
            },
    {
        let mut j: usize = 0;
        while j < self.by_room.len()
            invariant
                j <= self.by_room@.len(),
                forall|k: int| 0 <= k < j ==> self.by_room@[k].room@ != room@,
            decreases self.by_room@.len() - j,
        {
            if self.by_room[j].room.same(room) {
                return Some(j);
            }
            j = j + 1;
        }
        None
    }

    /// Whether `conn` is registered.
    pub fn is_registered(&self, conn: u64) -> (b: bool)
        requires
            self.wf(),
        ensures
            b == self.live().contains_key(conn),
    {
        self.find_connection(conn).is_some()
    }

    /// Adds `conn` as a connection that no user is bound to yet. A connection
    /// that is already registered is left as it is.
    pub fn register(&mut self, conn: u64)
        requires
            old(self).wf(),
        ensures
            final(self).wf(),
            old(self).live().contains_key(conn) ==> final(self).live() == old(self).live(),
            !old(self).live().contains_key(conn) ==> final(self).live() == old(self).live().insert(
                conn,
                None,
            ),
            final(self).subscriptions() == old(self).subscriptions(),
    {
        if self.find_connection(conn).is_some() {
            return;
        }
        self.connections.push(ConnectionEntry { id: conn, user: None, rooms: Vec::new() });
        self.users = Ghost(self.users@.insert(conn, None));
        proof {
            let conns = self.connections@;
            let n = conns.len() - 1;
            assert forall|c: u64|
                self.users@.contains_key(c) <==> exists|i: int|
                    0 <= i < conns.len() && (#[trigger] conns[i]).id == c by {
                if c == conn {
                    assert(conns[n].id == c);
                } else if self.users@.contains_key(c) {
                    let i = choose|i: int| 0 <= i < old(self).connections@.len() && (#[trigger] old(self).connections@[i]).id == c;
                    assert(conns[i].id == c);
                }
            }
            assert forall|i: int, k: RoomKey|
                0 <= i < conns.len() implies (lists_room(conns[i].rooms@, k)
                    <==> self.subs@.contains((conns[i].id, k))) by {
                if i == n {
                    assert(!old(self).live().contains_key(conn));
                    if self.subs@.contains((conn, k)) {
                        assert(old(self).users@.contains_key(conn));
                    }
                } else {
                    assert(conns[i] == old(self).connections@[i]);
                }
            }
        }
    }

    /// The user bound to `conn`, if it is registered and bound.
    pub fn user_of(&self, conn: u64) -> (r: Option<String>)
        requires
            self.wf(),
        ensures
            opt_view(r) == (if self.live().contains_key(conn) {
                self.live()[conn]
            } else {
                None
            }),
    {
        match self.find_connection(conn) {
            Some(i) => self.connections[i].user.clone(),
            None => None,
        }
    }

    /// Binds `user` to the registered connection `conn`; false when `conn` is
    /// not registered, and then nothing changes.
    pub fn bind_user(&mut self, conn: u64, user: String) -> (ok: bool)
        requires
            old(self).wf(),
        ensures
            final(self).wf(),
            ok == old(self).live().contains_key(conn),
            ok ==> final(self).live() == old(self).live().insert(conn, Some(user@)),
            !ok ==> final(self).live() == old(self).live(),
            final(self).subscriptions() == old(self).subscriptions(),
    {
        match self.find_connection(conn) {
            None => false,
            Some(i) => {
                let ghost user_view = user@;
                self.connections[i].user = Some(user);
                self.users = Ghost(self.users@.insert(conn, Some(user_view)));
                proof {
                    let conns = self.connections@;
                    let olds = old(self).connections@;
                    assert forall|c: u64|
                        self.users@.contains_key(c) <==> exists|k: int|
                            0 <= k < conns.len() && (#[trigger] conns[k]).id == c by {
                        if self.users@.contains_key(c) && c != conn {
                            let k = choose|k: int| 0 <= k < olds.len() && (#[trigger] olds[k]).id == c;
                            assert(conns[k].id == c);
                        }
                        if exists|k: int| 0 <= k < conns.len() && (#[trigger] conns[k]).id == c {
                            let k = choose|k: int| 0 <= k < conns.len() && (#[trigger] conns[k]).id == c;
                            assert(olds[k].id == c);
                        }
                    }
                    assert forall|k: int|
                        0 <= k < conns.len() implies self.users@[(#[trigger] conns[k]).id] == opt_view(conns[k].user) by {
                        if k != i {
                            assert(conns[k] == olds[k]);
                        }
                    }
                    assert forall|k: int, r: RoomKey|
                        0 <= k < conns.len() implies (lists_room(conns[k].rooms@, r)
                            <==> self.subs@.contains((conns[k].id, r))) by {
                        assert(conns[k].rooms@ == olds[k].rooms@);
                        assert(conns[k].id == olds[k].id);
                    }
                    assert forall|k: int| 0 <= k < conns.len() implies distinct_rooms((#[trigger] conns[k]).rooms@) by {
                        assert(conns[k].rooms@ == olds[k].rooms@);
                    }
                    assert forall|k: int, j: int| 0 <= k < j < conns.len() implies (#[trigger] conns[k]).id != (#[trigger] conns[j]).id by {
                        assert(olds[k].id != olds[j].id);
                    }
                }
                true
            },
        }
    }

    /// Subscribes the registered connection `conn` to `room`; false when
    /// `conn` is not registered, and then nothing changes.
    pub fn subscribe(&mut self, conn: u64, room: &Room) -> (ok: bool)
        requires
            old(self).wf(),
        ensures
            final(self).wf(),
            ok == old(self).live().contains_key(conn),
            ok ==> final(self).subscriptions() == old(self).subscriptions().insert((conn, room@)),
            !ok ==> final(self).subscriptions() == old(self).subscriptions(),
            final(self).live() == old(self).live(),
    {
        let i = match self.find_connection(conn) {
            None => return false,
            Some(i) => i,
        };
        if position_of_room(&self.connections[i].rooms, room).is_some() {
            proof {
                assert(lists_room(self.connections@[i as int].rooms@, room@));
                assert(self.subs@.insert((conn, room@)) =~= self.subs@);
            }
            return true;
        }
        let ghost k = room@;
        let ghost old_rooms = self.connections@[i as int].rooms@;
        let found = self.find_room(room);
        let ghost fj: int = match found {
            Some(j) => j as int,
            None => -1,
        };
        self.connections[i].rooms.push(room.clone());
        proof {
            assert(!self.subs@.contains((conn, k)));
        }
        match found {
            Some(j) => {
                proof {
                    assert(!self.by_room@[j as int].members@.contains(conn));
                }
                self.by_room[j].members.push(conn);
            },
            None => {
                let mut members: Vec<u64> = Vec::new();
                members.push(conn);
                self.by_room.push(RoomEntry { room: room.clone(), members });
            },
        }
        self.subs = Ghost(self.subs@.insert((conn, k)));
        proof {
            let conns = self.connections@;
            let olds = old(self).connections@;
            let rooms = self.by_room@;
            let olde = old(self).by_room@;
            assert(olde.len() <= rooms.len());
            assert forall|a: int| 0 <= a < conns.len() implies (#[trigger] conns[a]).id == olds[a].id
                && (a != i ==> conns[a] == olds[a]) && conns[a].user == olds[a].user by {}
            assert(conns[i as int].rooms@ == old_rooms.push(*room));
            assert forall|a: int, b: int| 0 <= a < b < conns.len() implies (#[trigger] conns[a]).id != (#[trigger] conns[b]).id by {
                assert(olds[a].id != olds[b].id);
            }
            assert forall|c: u64|
                self.users@.contains_key(c) <==> exists|a: int|
                    0 <= a < conns.len() && (#[trigger] conns[a]).id == c by {
                if self.users@.contains_key(c) {
                    let a = choose|a: int| 0 <= a < olds.len() && (#[trigger] olds[a]).id == c;
                    assert(conns[a].id == c);
                }
                if exists|a: int| 0 <= a < conns.len() && (#[trigger] conns[a]).id == c {
                    let a = choose|a: int| 0 <= a < conns.len() && (#[trigger] conns[a]).id == c;
                    assert(olds[a].id == c);
                }
            }
            assert forall|a: int| 0 <= a < conns.len() implies distinct_rooms((#[trigger] conns[a]).rooms@) by {
                if a == i {
                    let s2 = conns[a].rooms@;
                    assert forall|x: int, y: int| 0 <= x < y < s2.len() implies (#[trigger] s2[x])@ != (#[trigger] s2[y])@ by {
                        if y == old_rooms.len() {
                            assert(s2[x] == old_rooms[x]);
                        } else {
                            assert(s2[x] == old_rooms[x]);
                            assert(s2[y] == old_rooms[y]);
                        }
                    }
                }
            }
            assert forall|a: int, r: RoomKey|
                0 <= a < conns.len() implies (lists_room(conns[a].rooms@, r)
                    <==> self.subs@.contains((conns[a].id, r))) by {
                if a == i {
                    lemma_lists_push(old_rooms, *room, r);
                } else {
                    assert(olds[a].id != conn);
                }
            }
            assert forall|a: int, b: int| 0 <= a < b < rooms.len() implies (#[trigger] rooms[a]).room@ != (#[trigger] rooms[b]).room@ by {
                if b >= olde.len() {
                    assert(rooms[a] == olde[a]);
                } else {
                    assert(olde[a].room@ != olde[b].room@);
                }
            }
            assert forall|b: int| 0 <= b < rooms.len() implies (#[trigger] rooms[b]).members@.no_duplicates() by {
                if b >= olde.len() {
                    assert(rooms[b].members@.len() == 1);
                } else if b == fj {
                    assert(olde[b].members@.no_duplicates());
                    assert(rooms[b].members@ == olde[b].members@.push(conn));
                    assert forall|x: int, y: int| 0 <= x < y < rooms[b].members@.len() implies rooms[b].members@[x] != rooms[b].members@[y] by {
                        if y == olde[b].members@.len() {
                            assert(rooms[b].members@[x] == olde[b].members@[x]);
                        }
                    }
                } else {
                    assert(rooms[b] == olde[b]);
                }
            }
            assert forall|b: int, c: u64|
                0 <= b < rooms.len() implies (rooms[b].members@.contains(c)
                    <==> self.subs@.contains((c, rooms[b].room@))) by {
                if b >= olde.len() {
                    assert(rooms[b].members@ == seq![conn]);
                    assert(rooms[b].room@ == k);
                    if old(self).subs@.contains((c, rooms[b].room@)) {
                        let w = choose|w: int| 0 <= w < olde.len() && (#[trigger] olde[w]).room@ == rooms[b].room@;
                        assert(false);
                    }
                    if c == conn {
                        assert(rooms[b].members@[0] == c);
                    }
                    assert(rooms[b].members@.contains(c) <==> c == conn);
                } else if b == fj {
                    assert(rooms[b].members@ == olde[b].members@.push(conn));
                    if rooms[b].members@.contains(c) && c != conn {
                        let w = choose|w: int| 0 <= w < rooms[b].members@.len() && rooms[b].members@[w] == c;
                        assert(olde[b].members@[w] == c);
                    }
                    if olde[b].members@.contains(c) {
                        let w = choose|w: int| 0 <= w < olde[b].members@.len() && olde[b].members@[w] == c;
                        assert(rooms[b].members@[w] == c);
                    }
                    assert(rooms[b].members@[olde[b].members@.len() as int] == conn);
                    assert(rooms[b].room@ == k);
                    assert(old(self).subs@.contains((c, k)) <==> olde[b].members@.contains(c));
                } else {
                    assert(rooms[b] == olde[b]);
                    if fj >= 0 {
                        assert(olde[fj].room@ != olde[b].room@);
                    }
                    assert(olde[b].room@ != k);
                }
            }
            assert forall|p: (u64, RoomKey)| #[trigger] self.subs@.contains(p) implies exists|j: int|
                0 <= j < rooms.len() && (#[trigger] rooms[j]).room@ == p.1 by {
                if p == (conn, k) {
                    match found {
                        Some(j) => { assert(rooms[j as int].room@ == k); },
                        None => { assert(rooms[olde.len() as int].room@ == k); },
                    }
                } else {
                    let j = choose|j: int| 0 <= j < olde.len() && (#[trigger] olde[j]).room@ == p.1;
                    assert(rooms[j].room@ == olde[j].room@);
                }
            }
        }
        true
    }

    /// Unsubscribes the registered connection `conn` from `room`; false when
    /// `conn` is not registered, and then nothing changes.
    pub fn unsubscribe(&mut self, conn: u64, room: &Room) -> (ok: bool)
        requires
            old(self).wf(),
        ensures
            final(self).wf(),
            ok == old(self).live().contains_key(conn),
            final(self).subscriptions() == old(self).subscriptions().remove((conn, room@)),
            final(self).live() == old(self).live(),
    {
        let i = match self.find_connection(conn) {
            None => {
                proof {
                    assert(!self.subs@.contains((conn, room@)));
                    assert(self.subs@.remove((conn, room@)) =~= self.subs@);
                }
                return false;
            },
            Some(i) => i,
        };
        let p = match position_of_room(&self.connections[i].rooms, room) {
            None => {
                proof {
                    assert(self.subs@.remove((conn, room@)) =~= self.subs@);
                }
                return true;
            },
            Some(p) => p,
        };
        let ghost k = room@;
        let ghost old_rooms = self.connections@[i as int].rooms@;
        proof {
            assert(lists_room(old_rooms, k));
            assert(self.subs@.contains((conn, k)));
        }
        let j = match self.find_room(room) {
            Some(j) => j,
            None => {
                proof {
                    let w = choose|w: int| 0 <= w < self.by_room@.len() && (#[trigger] self.by_room@[w]).room@ == k;
                }
                return true;
            },
        };
        let q = match position_of_id(&self.by_room[j].members, conn) {
            Some(q) => q,
            None => {
                proof {
                    assert(false);
                }
                return true;
            },
        };
        let ghost old_members = self.by_room@[j as int].members@;
        self.connections[i].rooms.remove(p);
        self.by_room[j].members.remove(q);
        self.subs = Ghost(self.subs@.remove((conn, k)));
        proof {
            let conns = self.connections@;
            let olds = old(self).connections@;
            let rooms = self.by_room@;
            let olde = old(self).by_room@;
            assert forall|a: int| 0 <= a < conns.len() implies (#[trigger] conns[a]).id == olds[a].id
                && (a != i ==> conns[a] == olds[a]) && conns[a].user == olds[a].user by {}
            assert forall|b: int| 0 <= b < rooms.len() implies (#[trigger] rooms[b]).room == olde[b].room
                && (b != j ==> rooms[b] == olde[b]) by {}
            assert(conns[i as int].rooms@ == old_rooms.remove(p as int));
            assert(rooms[j as int].members@ == old_members.remove(q as int));
            assert forall|a: int, b: int| 0 <= a < b < conns.len() implies (#[trigger] conns[a]).id != (#[trigger] conns[b]).id by {
                assert(olds[a].id != olds[b].id);
            }
            assert forall|c: u64|
                self.users@.contains_key(c) <==> exists|a: int|
                    0 <= a < conns.len() && (#[trigger] conns[a]).id == c by {
                if self.users@.contains_key(c) {
                    let a = choose|a: int| 0 <= a < olds.len() && (#[trigger] olds[a]).id == c;
                    assert(conns[a].id == c);
                }
                if exists|a: int| 0 <= a < conns.len() && (#[trigger] conns[a]).id == c {
                    let a = choose|a: int| 0 <= a < conns.len() && (#[trigger] conns[a]).id == c;
                    assert(olds[a].id == c);
                }
            }
            assert forall|a: int| 0 <= a < conns.len() implies distinct_rooms((#[trigger] conns[a]).rooms@) by {
                if a == i {
                    lemma_lists_remove(old_rooms, p as int, k);
                }
            }
            assert forall|a: int, r: RoomKey|
                0 <= a < conns.len() implies (lists_room(conns[a].rooms@, r)
                    <==> self.subs@.contains((conns[a].id, r))) by {
                if a == i {
                    lemma_lists_remove(old_rooms, p as int, r);
                } else {
                    assert(olds[a].id != conn);
                }
            }
            assert forall|a: int, b: int| 0 <= a < b < rooms.len() implies (#[trigger] rooms[a]).room@ != (#[trigger] rooms[b]).room@ by {
                assert(olde[a].room@ != olde[b].room@);
            }
            assert forall|b: int| 0 <= b < rooms.len() implies (#[trigger] rooms[b]).members@.no_duplicates() by {
                if b == j {
                    lemma_ids_remove(old_members, q as int, conn);
                }
            }
            assert forall|b: int, c: u64|
                0 <= b < rooms.len() implies (rooms[b].members@.contains(c)
                    <==> self.subs@.contains((c, rooms[b].room@))) by {
                if b == j {
                    lemma_ids_remove(old_members, q as int, c);
                    assert(old(self).subs@.contains((c, k)) <==> old_members.contains(c));
                } else {
                    assert(olde[b].room@ != olde[j as int].room@);
                }
            }
            assert forall|pr: (u64, RoomKey)| #[trigger] self.subs@.contains(pr) implies exists|w: int|
                0 <= w < rooms.len() && (#[trigger] rooms[w]).room@ == pr.1 by {
                let w = choose|w: int| 0 <= w < olde.len() && (#[trigger] olde[w]).room@ == pr.1;
                assert(rooms[w].room@ == pr.1);
            }
        }
        true
    }

    /// The rooms that `conn` is subscribed to.
    pub fn rooms_of(&self, conn: u64) -> (r: Vec<Room>)
        requires
            self.wf(),
        ensures
            distinct_rooms(r@),
            forall|k: RoomKey| lists_room(r@, k) <==> self.subscriptions().contains((conn, k)),
    {
        let mut out: Vec<Room> = Vec::new();
        let i = match self.find_connection(conn) {
            Some(i) => i,
            None => {
                proof {
                    assert forall|k: RoomKey| !self.subscriptions().contains((conn, k)) by {
                        if self.subs@.contains((conn, k)) {
                            assert(self.users@.contains_key(conn));
                        }
                    }
                }
                return out;
            },
        };
        let rooms = &self.connections[i].rooms;
        let mut p: usize = 0;
        while p < rooms.len()
            invariant
                p <= rooms@.len(),
                rooms@ == self.connections@[i as int].rooms@,
                out@.len() == p,
                forall|x: int| 0 <= x < p ==> out@[x] == rooms@[x],
            decreases rooms@.len() - p,
        {
            out.push(rooms[p].clone());
            p = p + 1;
        }
        proof {
            assert(out@ =~= rooms@);
        }
        out
    }

    /// The connections subscribed to `room`.
    pub fn connections_in(&self, room: &Room) -> (r: Vec<u64>)
        requires
            self.wf(),
        ensures
            r@.no_duplicates(),
            forall|c: u64| r@.contains(c) <==> self.subscriptions().contains((c, room@)),
    {
        let mut out: Vec<u64> = Vec::new();
        let j = match self.find_room(room) {
            Some(j) => j,
            None => {
                proof {
                    assert forall|c: u64| !self.subscriptions().contains((c, room@)) by {
                        if self.subs@.contains((c, room@)) {
                            let w = choose|w: int| 0 <= w < self.by_room@.len() && (#[trigger] self.by_room@[w]).room@ == room@;
                        }
                    }
                }
                return out;
            },
        };
        let members = &self.by_room[j].members;
        let mut p: usize = 0;
        while p < members.len()
            invariant
                p <= members@.len(),
                members@ == self.by_room@[j as int].members@,
                out@ == members@.subrange(0, p as int),
            decreases members@.len() - p,
        {
            out.push(members[p]);
            p = p + 1;
            proof {
                assert(out@ =~= members@.subrange(0, p as int));
            }
        }
        proof {
            assert(out@ =~= members@);
        }
        out
    }

    /// The registered connections bound to `user`.
    pub fn connections_of_user(&self, user: &String) -> (r: Vec<u64>)
        requires
            self.wf(),
        ensures
            r@.no_duplicates(),
            forall|c: u64| r@.contains(c) <==> (self.live().contains_key(c) && self.live()[c] == Some(user@)),
    {
        let mut out: Vec<u64> = Vec::new();
        let mut i: usize = 0;
        while i < self.connections.len()
            invariant
                self.wf(),
                i <= self.connections@.len(),
                out@.no_duplicates(),
                forall|c: u64| out@.contains(c) <==> exists|a: int| 0 <= a < i && (#[trigger] self.connections@[a]).id == c
                    && opt_view(self.connections@[a].user) == Some(user@),
            decreases self.connections@.len() - i,
        {
            let matches_user = match &self.connections[i].user {
                Some(u) => *u == *user,
                None => false,
            };
            if matches_user {
                proof {
                    let id = self.connections@[i as int].id;
                    if out@.contains(id) {
                        let a = choose|a: int| 0 <= a < i && (#[trigger] self.connections@[a]).id == id
                            && opt_view(self.connections@[a].user) == Some(user@);
                        assert(self.connections@[a].id != self.connections@[i as int].id);
                    }
                }
                let ghost before = out@;
                out.push(self.connections[i].id);
                proof {
                    assert forall|c: u64| out@.contains(c) <==> exists|a: int| 0 <= a < i + 1 && (#[trigger] self.connections@[a]).id == c
                        && opt_view(self.connections@[a].user) == Some(user@) by {
                        if out@.contains(c) {
                            let x = choose|x: int| 0 <= x < out@.len() && out@[x] == c;
                            if x < before.len() {
                                assert(before[x] == c);
                                assert(before.contains(c));
                            } else {
                                assert(self.connections@[i as int].id == c);
                                assert(opt_view(self.connections@[i as int].user) == Some(user@));
                            }
                        }
                        if exists|a: int| 0 <= a < i + 1 && (#[trigger] self.connections@[a]).id == c
                            && opt_view(self.connections@[a].user) == Some(user@) {
                            let a = choose|a: int| 0 <= a < i + 1 && (#[trigger] self.connections@[a]).id == c
                                && opt_view(self.connections@[a].user) == Some(user@);
                            if a < i {
                                assert(before.contains(c));
                                let x = choose|x: int| 0 <= x < before.len() && before[x] == c;
                                assert(out@[x] == c);
                            } else {
                                assert(out@[before.len() as int] == c);
                            }
                        }
                    }
                }
            } else {
                proof {
                    assert forall|c: u64| out@.contains(c) <==> exists|a: int| 0 <= a < i + 1 && (#[trigger] self.connections@[a]).id == c
                        && opt_view(self.connections@[a].user) == Some(user@) by {
                        if exists|a: int| 0 <= a < i + 1 && (#[trigger] self.connections@[a]).id == c
                            && opt_view(self.connections@[a].user) == Some(user@) {
                            let a = choose|a: int| 0 <= a < i + 1 && (#[trigger] self.connections@[a]).id == c
                                && opt_view(self.connections@[a].user) == Some(user@);
                            assert(a < i);
                        }
                    }
                }
            }
            i = i + 1;
        }
        proof {
            assert forall|c: u64| out@.contains(c) <==> (self.live().contains_key(c) && self.live()[c] == Some(user@)) by {
                if self.live().contains_key(c) {
                    let a = choose|a: int| 0 <= a < self.connections@.len() && (#[trigger] self.connections@[a]).id == c;
                    assert(self.users@[self.connections@[a].id] == opt_view(self.connections@[a].user));
                }
            }
        }
        out
    }

    /// Removes `conn` with all its subscriptions and hands back the user that
    /// was bound to it. A connection that is not registered changes nothing.
    pub fn unregister(&mut self, conn: u64) -> (r: Option<String>)
        requires
            old(self).wf(),
        ensures
            final(self).wf(),
            opt_view(r) == (if old(self).live().contains_key(conn) {
                old(self).live()[conn]
            } else {
                None
            }),
            final(self).live() == old(self).live().remove(conn),
            forall|c: u64, k: RoomKey|
                final(self).subscriptions().contains((c, k)) <==> (old(self).subscriptions().contains(
                    (c, k),
                ) && c != conn),
    {
        let i = match self.find_connection(conn) {
            None => {
                proof {
                    assert(self.users@.remove(conn) =~= self.users@);
                    assert forall|c: u64, k: RoomKey| self.subs@.contains((c, k)) implies c != conn by {
                        assert(self.users@.contains_key(c));
                    }
                }
                return None;
            },
            Some(i) => i,
        };
        let ghost olde = self.by_room@;
        let mut j: usize = 0;
        while j < self.by_room.len()
            invariant
                self.by_room@.len() == olde.len(),
                j <= olde.len(),
                self.connections@ == old(self).connections@,
                self.subs@ == old(self).subs@,
                self.users@ == old(self).users@,
                olde == old(self).by_room@,
                forall|b: int| 0 <= b < olde.len() ==> (#[trigger] self.by_room@[b]).room == olde[b].room,
                forall|b: int| j <= b < olde.len() ==> (#[trigger] self.by_room@[b]) == olde[b],
                forall|b: int| 0 <= b < j ==> (#[trigger] self.by_room@[b]).members@.no_duplicates(),
                forall|b: int, c: u64|
                    #![trigger self.by_room@[b].members@.contains(c)]
                    0 <= b < j ==> (self.by_room@[b].members@.contains(c)
                        <==> (olde[b].members@.contains(c) && c != conn)),
                forall|b: int| 0 <= b < olde.len() ==> (#[trigger] olde[b]).members@.no_duplicates(),
            decreases olde.len() - j,
        {
            match position_of_id(&self.by_room[j].members, conn) {
                Some(q) => {
                    let ghost m = self.by_room@[j as int].members@;
                    self.by_room[j].members.remove(q);
                    proof {
                        assert(self.by_room@[j as int].members@ == m.remove(q as int));
                        assert forall|c: u64| self.by_room@[j as int].members@.contains(c)
                            <==> (olde[j as int].members@.contains(c) && c != conn) by {
                            lemma_ids_remove(m, q as int, c);
                        }
                        lemma_ids_remove(m, q as int, conn);
                    }
                },
                None => {},
            }
            j = j + 1;
        }
        let entry = self.connections.remove(i);
        let ghost k_user = entry.user;
        self.users = Ghost(self.users@.remove(conn));
        self.subs = Ghost(self.subs@.filter(|p: (u64, RoomKey)| p.0 != conn));
        proof {
            let conns = self.connections@;
            let olds = old(self).connections@;
            let rooms = self.by_room@;
            assert(conns == olds.remove(i as int));
            assert forall|a: int| 0 <= a < conns.len() implies (#[trigger] conns[a]) == olds[if a < i { a } else { a + 1 }] by {}
            assert forall|a: int, b: int| 0 <= a < b < conns.len() implies (#[trigger] conns[a]).id != (#[trigger] conns[b]).id by {
                let a2 = if a < i { a } else { a + 1 };
                let b2 = if b < i { b } else { b + 1 };
                assert(olds[a2].id != olds[b2].id);
            }
            assert forall|c: u64|
                self.users@.contains_key(c) <==> exists|a: int|
                    0 <= a < conns.len() && (#[trigger] conns[a]).id == c by {
                if self.users@.contains_key(c) {
                    let a = choose|a: int| 0 <= a < olds.len() && (#[trigger] olds[a]).id == c;
                    assert(a != i);
                    if a < i {
                        assert(conns[a].id == c);
                    } else {
                        assert(conns[a - 1].id == c);
                    }
                }
                if exists|a: int| 0 <= a < conns.len() && (#[trigger] conns[a]).id == c {
                    let a = choose|a: int| 0 <= a < conns.len() && (#[trigger] conns[a]).id == c;
                    let a2 = if a < i { a } else { a + 1 };
                    assert(olds[a2].id == c);
                    assert(olds[a2].id != olds[i as int].id);
                }
            }
            assert forall|a: int| 0 <= a < conns.len() implies self.users@[(#[trigger] conns[a]).id] == opt_view(conns[a].user) by {
                let a2 = if a < i { a } else { a + 1 };
                assert(olds[a2].id != olds[i as int].id);
            }
            assert forall|a: int| 0 <= a < conns.len() implies distinct_rooms((#[trigger] conns[a]).rooms@) by {
                let a2 = if a < i { a } else { a + 1 };
                assert(conns[a] == olds[a2]);
            }
            assert forall|a: int, r: RoomKey|
                0 <= a < conns.len() implies (lists_room(conns[a].rooms@, r)
                    <==> self.subs@.contains((conns[a].id, r))) by {
                let a2 = if a < i { a } else { a + 1 };
                assert(conns[a] == olds[a2]);
                assert(olds[a2].id != olds[i as int].id);
                assert(old(self).subs@.contains((olds[a2].id, r)) <==> lists_room(olds[a2].rooms@, r));
            }
            assert forall|a: int, b: int| 0 <= a < b < rooms.len() implies (#[trigger] rooms[a]).room@ != (#[trigger] rooms[b]).room@ by {
                assert(olde[a].room@ != olde[b].room@);
            }
            assert forall|b: int, c: u64|
                0 <= b < rooms.len() implies (rooms[b].members@.contains(c)
                    <==> self.subs@.contains((c, rooms[b].room@))) by {
                assert(old(self).subs@.contains((c, olde[b].room@)) <==> olde[b].members@.contains(c));
            }
            assert forall|pr: (u64, RoomKey)| #[trigger] self.subs@.contains(pr) implies self.users@.contains_key(pr.0) by {
                assert(old(self).subs@.contains(pr));
            }
            assert forall|pr: (u64, RoomKey)| #[trigger] self.subs@.contains(pr) implies exists|w: int|
                0 <= w < rooms.len() && (#[trigger] rooms[w]).room@ == pr.1 by {
                assert(old(self).subs@.contains(pr));
                let w = choose|w: int| 0 <= w < olde.len() && (#[trigger] olde[w]).room@ == pr.1;
                assert(rooms[w].room@ == pr.1);
            }
            assert(olds[i as int].id == conn);
        }
        entry.user
    }
}

} // verus!

//! The blind relay's room registry.
//!
//! The relay never reads a frame: it keeps, per room, who is connected and
//! the last snapshot frame, forwards each frame to the other members of the
//! sender's room, hands a late joiner the last snapshot first, and forgets a
//! room once it has stood empty for the cleanup timeout. The server around it
//! (sockets, timers) feeds it connections, frames and the clock.
use vstd::prelude::*;
use crate::ids::Id;
use crate::protocol::{frame_byte, FrameType};
use crate::seqs::{add_unique, add_unique_keeps_distinct, without, push_unique, without_ids, without_removes_exactly};
use crate::text::str_equal;

verus! {

/// How long an empty room is kept before it is forgotten, in milliseconds.
#[derive(Debug, Clone, Copy, PartialEq, Eq, Structural)]
pub struct RelayConfig {
    pub cleanup_timeout_ms: u64,
}

impl Default for RelayConfig {
    /// A minute.
    fn default() -> (res: Self)
        ensures
            res.cleanup_timeout_ms == 60_000,
    {
        RelayConfig { cleanup_timeout_ms: 60_000 }
    }
}

/// What the registry knows of one room.
pub struct RoomView {
    pub name: Seq<char>,
    pub members: Seq<Id>,
    pub snapshot: Option<Seq<u8>>,
    pub empty_since: Option<u64>,
}

/// One room: its name, its connections, the last snapshot frame relayed in
/// it, and since when it has been empty.
pub struct Room {
    name: String,
    members: Vec<Id>,
    snapshot: Option<Vec<u8>>,
    empty_since: Option<u64>,
}

pub open spec fn bytes_view(b: Option<Vec<u8>>) -> Option<Seq<u8>> {
    match b {
        Some(v) => Some(v@),
        None => None,
    }
}

impl View for Room {
    type V = RoomView;

    closed spec fn view(&self) -> RoomView {
        RoomView {
            name: self.name@,
            members: self.members@,
            snapshot: bytes_view(self.snapshot),
            empty_since: self.empty_since,
        }
    }
}

/// Whether `i` is the first room of that name.
pub open spec fn first_named(rooms: Seq<RoomView>, name: Seq<char>, i: int) -> bool {
    &&& 0 <= i < rooms.len()
    &&& rooms[i].name == name
    &&& forall|j: int| 0 <= j < i ==> rooms[j].name != name
}

/// The index of the room of that name, -1 where there is none.
pub open spec fn room_index(rooms: Seq<RoomView>, name: Seq<char>) -> int {
    if exists|i: int| first_named(rooms, name, i) {
        choose|i: int| first_named(rooms, name, i)
    } else {
        -1
    }
}

proof fn lemma_room_index(rooms: Seq<RoomView>, name: Seq<char>, i: int)
    requires
        first_named(rooms, name, i),
    ensures
        room_index(rooms, name) == i,
{
    let k = choose|k: int| first_named(rooms, name, k);
    if k < i {
        assert(rooms[k].name != name);
    }
    if i < k {
        assert(rooms[i].name != name);
    }
}

proof fn lemma_no_room(rooms: Seq<RoomView>, name: Seq<char>)
    requires
        forall|j: int| 0 <= j < rooms.len() ==> rooms[j].name != name,
    ensures
        room_index(rooms, name) == -1,
{
}

proof fn lemma_room_index_bounds(rooms: Seq<RoomView>, name: Seq<char>)
    ensures
        -1 <= room_index(rooms, name) < rooms.len(),
        room_index(rooms, name) >= 0 ==> rooms[room_index(rooms, name)].name == name,
        room_index(rooms, name) == -1 ==> forall|j: int| 0 <= j < rooms.len() ==> rooms[j].name != name,
{
    if exists|i: int| first_named(rooms, name, i) {
        let i = choose|i: int| first_named(rooms, name, i);
        lemma_room_index(rooms, name, i);
    } else {
        assert forall|j: int| 0 <= j < rooms.len() implies rooms[j].name != name by {
            if rooms[j].name == name {
                lemma_first_exists(rooms, name, j);
            }
        }
    }
}

proof fn lemma_first_exists(rooms: Seq<RoomView>, name: Seq<char>, j: int)
    requires
        0 <= j < rooms.len(),
        rooms[j].name == name,
    ensures
        exists|i: int| first_named(rooms, name, i),
    decreases j,
{
    if forall|m: int| 0 <= m < j ==> rooms[m].name != name {
        assert(first_named(rooms, name, j));
    } else {
        let m = choose|m: int| 0 <= m < j && rooms[m].name == name;
        lemma_first_exists(rooms, name, m);
    }
}

/// The registry after a connection joins a room: a member once, and the
/// room no longer empty; a room that did not exist is opened.
pub open spec fn joined(rooms: Seq<RoomView>, name: Seq<char>, conn: Id) -> Seq<RoomView> {
    let i = room_index(rooms, name);
    if i >= 0 {
        rooms.update(
            i,
            RoomView {
                name: rooms[i].name,
                members: add_unique(rooms[i].members, conn),
                snapshot: rooms[i].snapshot,
                empty_since: None,
            },
        )
    } else {
        rooms.push(RoomView { name, members: seq![conn], snapshot: None, empty_since: None })
    }
}

/// What a joiner is sent first: the room's last snapshot frame, if any.
pub open spec fn join_reply(rooms: Seq<RoomView>, name: Seq<char>) -> Option<Seq<u8>> {
    let i = room_index(rooms, name);
    if i >= 0 {
        rooms[i].snapshot
    } else {
        None
    }
}

/// Whether a frame carries a full snapshot (its first byte says so).
pub open spec fn is_snapshot_frame(frame: Seq<u8>) -> bool {
    frame.len() > 0 && frame[0] == frame_byte(FrameType::Snapshot)
}

/// The registry after a frame was relayed in a room: a snapshot frame
/// becomes the room's last snapshot; nothing else changes.
pub open spec fn relayed(rooms: Seq<RoomView>, name: Seq<char>, frame: Seq<u8>) -> Seq<RoomView> {
    let i = room_index(rooms, name);
    if i >= 0 && is_snapshot_frame(frame) {
        rooms.update(
            i,
            RoomView {
                name: rooms[i].name,
                members: rooms[i].members,
                snapshot: Some(frame),
                empty_since: rooms[i].empty_since,
            },
        )
    } else {
        rooms
    }
}

/// Who receives a frame sent in a room: every other member of that room.
pub open spec fn recipients(rooms: Seq<RoomView>, name: Seq<char>, from: Id) -> Seq<Id> {
    let i = room_index(rooms, name);
    if i >= 0 {
        without(rooms[i].members, from)
    } else {
        Seq::empty()
    }
}

/// The registry after a connection left a room; the room is marked empty
/// from `now` when its last member leaves.
pub open spec fn left(rooms: Seq<RoomView>, name: Seq<char>, conn: Id, now: u64) -> Seq<RoomView> {
    let i = room_index(rooms, name);
    if i >= 0 {
        let members = without(rooms[i].members, conn);
        rooms.update(
            i,
            RoomView {
                name: rooms[i].name,
                members,
                snapshot: rooms[i].snapshot,
                empty_since: if members.len() == 0 && rooms[i].empty_since is None {
                    Some(now)
                } else {
                    rooms[i].empty_since
                },
            },
        )
    } else {
        rooms
    }
}

/// Whether a room has stood empty for the whole timeout at `now`.
pub open spec fn expired(r: RoomView, now: u64, timeout: u64) -> bool {
    &&& r.members.len() == 0
    &&& r.empty_since matches Some(t) && t + timeout <= now
}

/// The registry after forgetting every expired room, the others in order.
pub open spec fn pruned(rooms: Seq<RoomView>, now: u64, timeout: u64) -> Seq<RoomView> {
    rooms.filter(kept(now, timeout))
}

/// The rooms that pruning at `now` keeps.
pub open spec fn kept(now: u64, timeout: u64) -> spec_fn(RoomView) -> bool {
    |r: RoomView| !expired(r, now, timeout)
}

/// The rooms the relay holds, in the order they were opened.
struct Registry {
    rooms: Vec<Room>,
}

impl View for Registry {
    type V = Seq<RoomView>;

    closed spec fn view(&self) -> Seq<RoomView> {
        self.rooms@.map_values(|r: Room| r@)
    }
}

/// The relay's state: its configuration and its rooms.
pub struct AppState {
    config: RelayConfig,
    registry: Registry,
}

impl View for AppState {
    type V = Seq<RoomView>;

    closed spec fn view(&self) -> Seq<RoomView> {
        self.registry@
    }
}

impl AppState {
    /// Every empty room knows since when it has been empty.
    #[verifier::type_invariant]
    spec fn empty_rooms_known(self) -> bool {
        empty_rooms_dated(self@)
    }

    /// The configuration the relay was started with.
    pub closed spec fn settings(&self) -> RelayConfig {
        self.config
    }

    /// The configuration the relay was started with.
    pub fn config(&self) -> (res: RelayConfig)
        ensures
            res == self.settings(),
    {
        self.config
    }

    /// A relay with no rooms.
    pub fn new(config: RelayConfig) -> (res: AppState)
        ensures
            res.settings() == config,
            res@ == Seq::<RoomView>::empty(),
    {
        let registry = Registry { rooms: Vec::new() };
        assert(registry@ =~= Seq::<RoomView>::empty());
        AppState { config, registry }
    }

    /// How many rooms the relay holds.
    pub fn room_count(&self) -> (res: usize)
        ensures
            res == self@.len(),
    {
        self.registry.rooms.len()
    }

    /// Takes the rooms out, leaving none behind for the moment.
    fn take_registry(&mut self) -> (res: Registry)
        ensures
            res@ == old(self)@,
            empty_rooms_dated(res@),
            final(self).settings() == old(self).settings(),
            final(self)@ == Seq::<RoomView>::empty(),
    {
        proof {
            use_type_invariant(&*self);
        }
        let mut reg = Registry { rooms: Vec::new() };
        assert(reg@ =~= Seq::<RoomView>::empty());
        std::mem::swap(&mut reg, &mut self.registry);
        reg
    }

    /// A connection joins a room, which is opened if it does not exist.
    /// Returns the frame to send the joiner first: the room's last snapshot.
    pub fn join(&mut self, name: &str, conn: Id) -> (res: Option<Vec<u8>>)
        ensures
            final(self).settings() == old(self).settings(),
            final(self)@ == joined(old(self)@, name@, conn),
            bytes_view(res) == join_reply(old(self)@, name@),
    {
        let mut reg = self.take_registry();
        let ghost before = reg@;
        let res = reg.join(name, conn);
        proof {
            empty_rooms_stay_dated(before, name@, conn, Seq::empty(), 0, 0);
        }
        self.registry = reg;
        res
    }

    /// A frame sent by `from` in a room. Returns the connections to forward
    /// it to: every other member of the room; a snapshot frame is kept for
    /// later joiners.
    pub fn relay(&mut self, name: &str, from: Id, frame: &[u8]) -> (res: Vec<Id>)
        ensures
            final(self).settings() == old(self).settings(),
            final(self)@ == relayed(old(self)@, name@, frame@),
            res@ == recipients(old(self)@, name@, from),
    {
        let mut reg = self.take_registry();
        let ghost before = reg@;
        let res = reg.relay(name, from, frame);
        proof {
            empty_rooms_stay_dated(before, name@, from, frame@, 0, 0);
        }
        self.registry = reg;
        res
    }

    /// A connection leaves a room; the room is marked empty from `now` when
    /// its last member is gone.
    pub fn leave(&mut self, name: &str, conn: Id, now: u64)
        ensures
            final(self).settings() == old(self).settings(),
            final(self)@ == left(old(self)@, name@, conn, now),
    {
        let mut reg = self.take_registry();
        let ghost before = reg@;
        reg.leave(name, conn, now);
        proof {
            empty_rooms_stay_dated(before, name@, conn, Seq::empty(), now, 0);
        }
        self.registry = reg;
    }

    /// Forgets every room that has stood empty for the cleanup timeout: the
    /// rooms left are exactly those with a connection and those that lost
    /// their last one less than the timeout ago.
    pub fn prune(&mut self, now: u64)
        ensures
            final(self).settings() == old(self).settings(),
            final(self)@ == pruned(old(self)@, now, old(self).settings().cleanup_timeout_ms),
            final(self)@ == old(self)@.filter(live(now, old(self).settings().cleanup_timeout_ms)),
    {
        let timeout = self.config.cleanup_timeout_ms;
        let mut reg = self.take_registry();
        let ghost before = reg@;
        reg.prune(now, timeout);
        proof {
            empty_rooms_stay_dated(before, Seq::empty(), 0, Seq::empty(), now, timeout);
            pruning_keeps_exactly_the_live_rooms(before, now, timeout);
        }
        self.registry = reg;
    }
}

impl Registry {
    fn find(&self, name: &str) -> (res: Option<usize>)
        ensures
            match res {
                Some(i) => i == room_index(self@, name@) && i < self@.len(),
                None => room_index(self@, name@) == -1,
            },
    {
        let mut i: usize = 0;
        while i < self.rooms.len()
            invariant
                i <= self.rooms@.len(),
                self@.len() == self.rooms@.len(),
                forall|j: int| 0 <= j < i ==> self@[j].name != name@,
            decreases self.rooms@.len() - i,
        {
            if str_equal(self.rooms[i].name.as_str(), name) {
                proof {
                    assert(self@[i as int] == self.rooms@[i as int]@);
                    lemma_room_index(self@, name@, i as int);
                }
                return Some(i);
            }
            assert(self@[i as int] == self.rooms@[i as int]@);
            i += 1;
        }
        proof {
            lemma_no_room(self@, name@);
        }
        None
    }

    /// A connection joins a room, which is opened if it does not exist.
    /// Returns the frame to send the joiner first: the room's last snapshot.
    fn join(&mut self, name: &str, conn: Id) -> (res: Option<Vec<u8>>)
        ensures
            final(self)@ == joined(old(self)@, name@, conn),
            bytes_view(res) == join_reply(old(self)@, name@),
    {
        let ghost before = self@;
        match self.find(name) {
            Some(i) => {
                let reply = match &self.rooms[i].snapshot {
                    Some(s) => Some(vstd::slice::slice_to_vec(s.as_slice())),
                    None => None,
                };
                assert(self.rooms@[i as int]@ == before[i as int]);
                push_unique(&mut self.rooms[i].members, conn);
                self.rooms[i].empty_since = None;
                assert(self@ =~= joined(before, name@, conn));
                reply
            },
            None => {
                let mut members: Vec<Id> = Vec::new();
                members.push(conn);
                self.rooms.push(
                    Room { name: name.to_string(), members, snapshot: None, empty_since: None },
                );
                assert(self@ =~= joined(before, name@, conn));
                None
            },
        }
    }

    /// A frame sent by `from` in a room. Returns the connections to forward
    /// it to: every other member of the room; a snapshot frame is kept for
    /// later joiners.
    fn relay(&mut self, name: &str, from: Id, frame: &[u8]) -> (res: Vec<Id>)
        ensures
            final(self)@ == relayed(old(self)@, name@, frame@),
            res@ == recipients(old(self)@, name@, from),
    {
        let ghost before = self@;
        match self.find(name) {
            Some(i) => {
                assert(self.rooms@[i as int]@ == before[i as int]);
                let mut out: Vec<Id> = Vec::new();
                let mut k: usize = 0;
                while k < self.rooms[i].members.len()
                    invariant
                        self@ == before,
                        i < self.rooms@.len(),
                        self.rooms@[i as int]@ == before[i as int],
                        k <= self.rooms@[i as int].members@.len(),
                        out@ == without(self.rooms@[i as int].members@.take(k as int), from),
                    decreases self.rooms@[i as int].members@.len() - k,
                {
                    let ghost m = self.rooms@[i as int].members@;
                    assert(m.take(k + 1).drop_last() =~= m.take(k as int));
                    let c = self.rooms[i].members[k];
                    if c != from {
                        out.push(c);
                    }
                    k += 1;
                }
                assert(self.rooms@[i as int].members@.take(self.rooms@[i as int].members@.len() as int)
                    =~= self.rooms@[i as int].members@);
                if frame.len() > 0 && frame[0] == FrameType::Snapshot.as_u8() {
                    self.rooms[i].snapshot = Some(vstd::slice::slice_to_vec(frame));
                    assert(self@ =~= relayed(before, name@, frame@));
                }
                out
            },
            None => Vec::new(),
        }
    }

    /// A connection leaves a room; the room is marked empty from `now` when
    /// its last member is gone.
    fn leave(&mut self, name: &str, conn: Id, now: u64)
        ensures
            final(self)@ == left(old(self)@, name@, conn, now),
    {
        let ghost before = self@;
        match self.find(name) {
            Some(i) => {
                assert(self.rooms@[i as int]@ == before[i as int]);
                let members = without_ids(&self.rooms[i].members, conn);
                if members.len() == 0 && self.rooms[i].empty_since.is_none() {
                    self.rooms[i].empty_since = Some(now);
                }
                self.rooms[i].members = members;
                assert(self@ =~= left(before, name@, conn, now));
            },
            None => {},
        }
    }

    /// Forgets every room that has stood empty for the cleanup timeout.
    fn prune(&mut self, now: u64, timeout: u64)
        ensures
            final(self)@ == pruned(old(self)@, now, timeout),
    {
        let ghost before = self@;
        let ghost keep = kept(now, timeout);
        let total: usize = self.rooms.len();
        assert(before.len() == total);
        let mut i: usize = 0;
        let mut k: usize = 0;
        while i < self.rooms.len()
            invariant
                before.len() <= usize::MAX,
                keep == kept(now, timeout),
                k <= before.len(),
                i <= self@.len(),
                self@ =~= before.take(k as int).filter(keep) + before.skip(k as int),
                i == before.take(k as int).filter(keep).len(),
            decreases self@.len() - i,
        {
            let ghost done = before.take(k as int).filter(keep);
            let ghost cur = self@;
            proof {
                assert(cur.len() == done.len() + before.len() - k);
                assert(k < before.len());
                assert(cur[i as int] == before[k as int]);
                let t1 = before.take(k + 1);
                assert(t1.drop_last() =~= before.take(k as int));
                assert(t1.last() == before[k as int]);
                reveal_with_fuel(Seq::filter, 1);
                assert(t1.filter(keep) == if keep(before[k as int]) {
                    done.push(before[k as int])
                } else {
                    done
                });
            }
            let gone = match self.rooms[i].empty_since {
                Some(t) => self.rooms[i].members.len() == 0 && t <= now && now - t >= timeout,
                None => false,
            };
            assert(cur[i as int] == self.rooms@[i as int]@);
            assert(keep(before[k as int]) == !expired(before[k as int], now, timeout));
            assert(gone == !keep(before[k as int]));
            if gone {
                self.rooms.remove(i);
                assert(self@ =~= cur.remove(i as int));
                assert(self@ =~= before.take(k + 1).filter(keep) + before.skip(k + 1));
            } else {
                assert(self@ =~= before.take(k + 1).filter(keep) + before.skip(k + 1));
                i += 1;
            }
            k += 1;
        }
        proof {
            assert(k == before.len()) by {
                if k < before.len() {
                    assert(self@.len() > i);
                }
            }
            assert(before.take(k as int) =~= before);
            assert(before.skip(k as int) =~= Seq::<RoomView>::empty());
        }
    }
}

/// No frame goes back to its sender, and every frame stays in its room:
/// each recipient is another member of the room the frame was sent in.
pub proof fn relay_never_echoes(rooms: Seq<RoomView>, name: Seq<char>, from: Id, to: Id)
    requires
        recipients(rooms, name, from).contains(to),
    ensures
        to != from,
        room_index(rooms, name) >= 0,
        rooms[room_index(rooms, name)].name == name,
        rooms[room_index(rooms, name)].members.contains(to),
{
    lemma_room_index_bounds(rooms, name);
    let i = room_index(rooms, name);
    if i >= 0 {
        without_removes_exactly(rooms[i].members, from, to);
    }
}

/// Every other member of the room receives the frame.
pub proof fn relay_reaches_every_other_member(rooms: Seq<RoomView>, name: Seq<char>, from: Id, to: Id)
    requires
        room_index(rooms, name) >= 0,
        rooms[room_index(rooms, name)].members.contains(to),
        to != from,
    ensures
        recipients(rooms, name, from).contains(to),
{
    without_removes_exactly(rooms[room_index(rooms, name)].members, from, to);
}

/// A late joiner is sent the last snapshot frame relayed in its room: a
/// snapshot frame replaces what a joiner gets, any other frame leaves it,
/// and a frame in one room changes nothing for another.
pub proof fn joiner_gets_last_snapshot(rooms: Seq<RoomView>, name: Seq<char>, frame: Seq<u8>, other: Seq<char>)
    ensures
        room_index(rooms, name) >= 0 && is_snapshot_frame(frame)
            ==> join_reply(relayed(rooms, name, frame), name) == Some(frame),
        !is_snapshot_frame(frame) ==> join_reply(relayed(rooms, name, frame), name) == join_reply(rooms, name),
        other != name ==> join_reply(relayed(rooms, name, frame), other) == join_reply(rooms, other),
{
    lemma_room_index_bounds(rooms, name);
    lemma_room_index_bounds(rooms, other);
    let i = room_index(rooms, name);
    if i >= 0 && is_snapshot_frame(frame) {
        let after = relayed(rooms, name, frame);
        assert forall|j: int| 0 <= j < after.len() implies after[j].name == rooms[j].name by {}
        assert forall|j: int| 0 <= j < i implies after[j].name != name by {}
        assert(first_named(after, name, i));
        lemma_room_index(after, name, i);
        let o = room_index(rooms, other);
        if o >= 0 {
            assert(first_named(rooms, other, o)) by {
                lemma_room_index_bounds(rooms, other);
                assert forall|j: int| 0 <= j < o implies rooms[j].name != other by {
                    if rooms[j].name == other {
                        lemma_first_exists(rooms, other, j);
                        let f = choose|f: int| first_named(rooms, other, f);
                        lemma_room_index(rooms, other, f);
                    }
                }
            }
            assert(first_named(after, other, o));
            lemma_room_index(after, other, o);
        } else {
            lemma_no_room(after, other);
        }
    }
}

/// A connection that joins a room is a member of it once, however often it
/// joins: joining keeps every member list free of repeats, and joining a
/// second time changes nothing.
pub proof fn joining_counts_a_connection_once(rooms: Seq<RoomView>, name: Seq<char>, conn: Id)
    requires
        forall|j: int| 0 <= j < rooms.len() ==> (#[trigger] rooms[j]).members.no_duplicates(),
    ensures
        forall|j: int|
            0 <= j < joined(rooms, name, conn).len() ==> (#[trigger] joined(rooms, name, conn)[j]).members.no_duplicates(),
        room_index(joined(rooms, name, conn), name) >= 0,
        joined(rooms, name, conn)[room_index(joined(rooms, name, conn), name)].members.contains(conn),
        joined(joined(rooms, name, conn), name, conn) == joined(rooms, name, conn),
{
    lemma_room_index_bounds(rooms, name);
    let i = room_index(rooms, name);
    let after = joined(rooms, name, conn);
    if i >= 0 {
        add_unique_keeps_distinct(rooms[i].members, conn);
        assert forall|j: int| 0 <= j < i implies after[j].name != name by {}
        assert(first_named(after, name, i));
        lemma_room_index(after, name, i);
        add_unique_keeps_distinct(after[i].members, conn);
        assert(add_unique(after[i].members, conn) =~= after[i].members);
        assert(joined(after, name, conn) =~= after);
    } else {
        let n = rooms.len() as int;
        assert(seq![conn].no_duplicates());
        assert forall|j: int| 0 <= j < n implies after[j].name != name by {}
        assert(first_named(after, name, n));
        lemma_room_index(after, name, n);
        assert(after[n].members =~= seq![conn]);
        assert(after[n].members.contains(conn)) by {
            assert(after[n].members[0] == conn);
        }
        assert(add_unique(after[n].members, conn) =~= after[n].members);
        assert(joined(after, name, conn) =~= after);
    }
}

/// Every empty room knows since when it has been empty.
pub open spec fn empty_rooms_dated(rooms: Seq<RoomView>) -> bool {
    forall|j: int| 0 <= j < rooms.len() && (#[trigger] rooms[j]).members.len() == 0 ==> rooms[j].empty_since is Some
}

/// A room that is still live at `now`: it has a connection, or lost its last
/// one less than the timeout ago.
pub open spec fn live(now: u64, timeout: u64) -> spec_fn(RoomView) -> bool {
    |r: RoomView| r.members.len() > 0 || (r.empty_since matches Some(t) && now < t + timeout)
}

proof fn lemma_filter_agrees(s: Seq<RoomView>, p: spec_fn(RoomView) -> bool, q: spec_fn(RoomView) -> bool)
    requires
        forall|i: int| 0 <= i < s.len() ==> p(#[trigger] s[i]) == q(s[i]),
    ensures
        s.filter(p) == s.filter(q),
    decreases s.len(),
{
    reveal_with_fuel(Seq::filter, 1);
    if s.len() > 0 {
        let t = s.drop_last();
        assert forall|i: int| 0 <= i < t.len() implies p(#[trigger] t[i]) == q(t[i]) by {
            assert(t[i] == s[i]);
        }
        lemma_filter_agrees(t, p, q);
        assert(p(s[s.len() - 1]) == q(s[s.len() - 1]));
    }
}

proof fn lemma_filter_from(s: Seq<RoomView>, p: spec_fn(RoomView) -> bool, j: int)
    requires
        0 <= j < s.filter(p).len(),
    ensures
        exists|i: int| 0 <= i < s.len() && s[i] == #[trigger] s.filter(p)[j],
    decreases s.len(),
{
    reveal_with_fuel(Seq::filter, 1);
    if s.len() > 0 {
        let t = s.drop_last();
        if j < t.filter(p).len() {
            lemma_filter_from(t, p, j);
            let i = choose|i: int| 0 <= i < t.len() && t[i] == t.filter(p)[j];
            assert(s[i] == t[i]);
        } else {
            assert(s.filter(p)[j] == s[s.len() - 1]);
        }
    }
}

/// Joining, relaying, leaving and pruning all keep every empty room dated,
/// and a new relay has no rooms at all.
pub proof fn empty_rooms_stay_dated(
    rooms: Seq<RoomView>,
    name: Seq<char>,
    conn: Id,
    frame: Seq<u8>,
    now: u64,
    timeout: u64,
)
    requires
        empty_rooms_dated(rooms),
    ensures
        empty_rooms_dated(Seq::<RoomView>::empty()),
        empty_rooms_dated(joined(rooms, name, conn)),
        empty_rooms_dated(relayed(rooms, name, frame)),
        empty_rooms_dated(left(rooms, name, conn, now)),
        empty_rooms_dated(pruned(rooms, now, timeout)),
{
    broadcast use vstd::seq_lib::group_filter_ensures;
    lemma_room_index_bounds(rooms, name);
    let i = room_index(rooms, name);
    let j1 = joined(rooms, name, conn);
    if i >= 0 {
        if !rooms[i].members.contains(conn) {
            assert(rooms[i].members.push(conn)[rooms[i].members.len() as int] == conn);
        }
        assert(j1[i].members.contains(conn));
    } else {
        assert(j1[rooms.len() as int].members == seq![conn]);
    }
    assert forall|j: int| 0 <= j < j1.len() && (#[trigger] j1[j]).members.len() == 0 implies j1[j].empty_since is Some by {
        if j == i || j == rooms.len() {
            assert(j1[j].members.contains(conn));
        }
    }
    let pr = pruned(rooms, now, timeout);
    assert forall|j: int| 0 <= j < pr.len() && (#[trigger] pr[j]).members.len() == 0 implies pr[j].empty_since is Some by {
        lemma_filter_from(rooms, kept(now, timeout), j);
    }
}

/// Pruning at `now` keeps exactly the live rooms, in order: those with a
/// connection and those that lost their last one less than the timeout ago.
/// So after pruning, the room count is the number of live rooms.
pub proof fn pruning_keeps_exactly_the_live_rooms(rooms: Seq<RoomView>, now: u64, timeout: u64)
    requires
        empty_rooms_dated(rooms),
    ensures
        pruned(rooms, now, timeout) == rooms.filter(live(now, timeout)),
        pruned(rooms, now, timeout).len() == rooms.filter(live(now, timeout)).len(),
{
    assert forall|i: int| 0 <= i < rooms.len() implies kept(now, timeout)(#[trigger] rooms[i]) == live(now, timeout)(
        rooms[i],
    ) by {
        if rooms[i].members.len() == 0 {
            assert(rooms[i].empty_since is Some);
        }
    }
    lemma_filter_agrees(rooms, kept(now, timeout), live(now, timeout));
}

/// A frame never reaches a connection outside the sender's room, such as one
/// that joined another room.
pub proof fn frames_stay_in_their_room(rooms: Seq<RoomView>, name: Seq<char>, from: Id, to: Id)
    requires
        room_index(rooms, name) >= 0 ==> !rooms[room_index(rooms, name)].members.contains(to),
    ensures
        !recipients(rooms, name, from).contains(to),
{
    lemma_room_index_bounds(rooms, name);
    let i = room_index(rooms, name);
    if i >= 0 {
        without_removes_exactly(rooms[i].members, from, to);
    }
}

proof fn lemma_same_names(a: Seq<RoomView>, b: Seq<RoomView>, name: Seq<char>)
    requires
        a.len() == b.len(),
        forall|j: int| 0 <= j < a.len() ==> (#[trigger] a[j]).name == b[j].name,
    ensures
        room_index(a, name) == room_index(b, name),
{
    lemma_room_index_bounds(a, name);
    lemma_room_index_bounds(b, name);
    let i = room_index(a, name);
    if i >= 0 {
        assert forall|j: int| 0 <= j < i implies b[j].name != name by {
            assert(a[j].name == b[j].name);
        }
        assert(first_named(b, name, i));
        lemma_room_index(b, name, i);
    } else {
        assert forall|j: int| 0 <= j < b.len() implies b[j].name != name by {
            assert(a[j].name == b[j].name);
        }
        lemma_no_room(b, name);
    }
}

/// A room that a connection joins holds it and is no longer marked empty,
/// whatever it was before: pruning keeps it at any time, and once its last
/// member leaves again, the timeout runs from that latest departure.
pub proof fn joining_clears_the_empty_mark(rooms: Seq<RoomView>, name: Seq<char>, conn: Id, now: u64, timeout: u64)
    ensures
        ({
            let after = joined(rooms, name, conn);
            let k = room_index(after, name);
            let gone = left(after, name, conn, now);
            &&& 0 <= k < after.len()
            &&& after[k].name == name
            &&& after[k].members.contains(conn)
            &&& after[k].empty_since is None
            &&& pruned(after, now, timeout).contains(after[k])
            &&& room_index(gone, name) == k
            &&& gone[k].members.len() == 0 ==> gone[k].empty_since == Some(now)
        }),
{
    lemma_room_index_bounds(rooms, name);
    let i = room_index(rooms, name);
    let after = joined(rooms, name, conn);
    let k = if i >= 0 { i } else { rooms.len() as int };
    if i >= 0 {
        assert forall|j: int| 0 <= j < i implies after[j].name != name by {}
        assert(first_named(after, name, i));
        lemma_room_index(after, name, i);
        if !rooms[i].members.contains(conn) {
            assert(rooms[i].members.push(conn)[rooms[i].members.len() as int] == conn);
        }
    } else {
        let n = rooms.len() as int;
        assert forall|j: int| 0 <= j < n implies after[j].name != name by {}
        assert(first_named(after, name, n));
        lemma_room_index(after, name, n);
        assert(after[n].members[0] == conn);
    }
    assert(after[k].members.contains(conn));
    occupied_rooms_survive_pruning(after, now, timeout, k);
    let gone = left(after, name, conn, now);
    assert forall|j: int| 0 <= j < after.len() implies (#[trigger] after[j]).name == gone[j].name by {}
    lemma_same_names(after, gone, name);
}

/// A room with a member is never forgotten, and a room is forgotten once it
/// has stood empty for the whole timeout.
pub proof fn occupied_rooms_survive_pruning(rooms: Seq<RoomView>, now: u64, timeout: u64, i: int)
    requires
        0 <= i < rooms.len(),
    ensures
        !expired(rooms[i], now, timeout) ==> pruned(rooms, now, timeout).contains(rooms[i]),
        rooms[i].members.len() > 0 ==> pruned(rooms, now, timeout).contains(rooms[i]),
        expired(rooms[i], now, timeout) ==> !pruned(rooms, now, timeout).contains(rooms[i]),
{
    broadcast use vstd::seq_lib::group_filter_ensures;
    let keep = kept(now, timeout);
    if expired(rooms[i], now, timeout) && pruned(rooms, now, timeout).contains(rooms[i]) {
        let k = choose|k: int| 0 <= k < rooms.filter(keep).len() && rooms.filter(keep)[k] == rooms[i];
        assert(keep(rooms.filter(keep)[k]));
    }
}

} // verus!

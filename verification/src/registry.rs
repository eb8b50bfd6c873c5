//! The table of rooms and the admission of peers to them.
//!
//! A room is a meeting point for at most two peers. It exists from the moment
//! its first peer arrives until its last peer leaves.

use crate::channel::{attach, open_channel, publish, share};
use crate::json::same_text;
use crate::protocol::Envelope;
use tokio::sync::broadcast::{Receiver, Sender};
use vstd::prelude::*;

verus! {

/// The number of peers that a room admits.
pub const ROOM_CAPACITY: usize = 2;

/// The number of frames that a room's channel keeps for a slow receiver.
pub const CHANNEL_CAPACITY: usize = 100;

/// How a request to enter a room ended.
#[derive(Clone, Copy, Debug, PartialEq, Eq, Structural)]
pub enum Admission {
    /// The room did not exist; the peer is its first member.
    Created,
    /// The room had a free place; the peer took it.
    Joined,
    /// The room already had two members; nothing changed.
    Full,
}

/// The rooms of a registry as a mathematical value: each room's identifier
/// with the set of its members.
pub type Rooms = Map<Seq<char>, Set<Seq<char>>>;

/// Every room has at least one member and no more than its capacity.
pub open spec fn within_capacity(rooms: Rooms) -> bool {
    forall|room: Seq<char>| #[trigger]
        rooms.dom().contains(room) ==> rooms[room].finite() && 1 <= rooms[room].len()
            <= ROOM_CAPACITY
}

/// What a request to enter `room` is answered with.
pub open spec fn spec_admission(rooms: Rooms, room: Seq<char>) -> Admission {
    if !rooms.dom().contains(room) {
        Admission::Created
    } else if rooms[room].len() < ROOM_CAPACITY {
        Admission::Joined
    } else {
        Admission::Full
    }
}

/// The rooms after `peer` has asked to enter `room`.
pub open spec fn after_join(rooms: Rooms, room: Seq<char>, peer: Seq<char>) -> Rooms {
    match spec_admission(rooms, room) {
        Admission::Created => rooms.insert(room, Set::empty().insert(peer)),
        Admission::Joined => rooms.insert(room, rooms[room].insert(peer)),
        Admission::Full => rooms,
    }
}

/// The rooms after `peer` has left `room`: without the peer, and without the
/// room where the peer was its last member.
pub open spec fn after_leave(rooms: Rooms, room: Seq<char>, peer: Seq<char>) -> Rooms {
    if !rooms.dom().contains(room) {
        rooms
    } else if rooms[room].remove(peer) =~= Set::empty() {
        rooms.remove(room)
    } else {
        rooms.insert(room, rooms[room].remove(peer))
    }
}

/// The set of the texts that a list of strings holds.
pub open spec fn spec_names(names: Seq<String>) -> Set<Seq<char>> {
    Set::new(
        |name: Seq<char>| exists|k: int| 0 <= k < names.len() && (#[trigger] names[k])@ == name,
    )
}

/// Admission keeps every room within its capacity.
pub proof fn lemma_join_keeps_capacity(rooms: Rooms, room: Seq<char>, peer: Seq<char>)
    requires
        within_capacity(rooms),
    ensures
        within_capacity(after_join(rooms, room, peer)),
{
    let after = after_join(rooms, room, peer);
    assert forall|other: Seq<char>| #[trigger] after.dom().contains(other) implies {
        &&& after[other].finite()
        &&& 1 <= after[other].len() <= 2
    } by {
        if other != room {
            assert(rooms.dom().contains(other));
        }
    }
}

/// Leaving keeps every room within its capacity: a room that would be left
/// empty is gone.
pub proof fn lemma_leave_keeps_capacity(rooms: Rooms, room: Seq<char>, peer: Seq<char>)
    requires
        within_capacity(rooms),
    ensures
        within_capacity(after_leave(rooms, room, peer)),
{
    let after = after_leave(rooms, room, peer);
    assert forall|other: Seq<char>| #[trigger] after.dom().contains(other) implies {
        &&& after[other].finite()
        &&& 1 <= after[other].len() <= 2
    } by {
        assert(rooms.dom().contains(other));
        if other == room {
            let rest = rooms[room].remove(peer);
            if rest.len() == 0 {
                assert(rest =~= Set::empty()) by {
                    if exists|p: Seq<char>| rest.contains(p) {
                        let p = choose|p: Seq<char>| rest.contains(p);
                        assert(rest.remove(p).len() + 1 == rest.len());
                    }
                }
            }
        }
    }
}

/// A room with two members turns every request away and stays as it is,
/// whoever asks.
pub proof fn lemma_full_room_rejects(rooms: Rooms, room: Seq<char>, peer: Seq<char>)
    requires
        within_capacity(rooms),
        rooms.dom().contains(room),
        rooms[room].len() == 2,
    ensures
        spec_admission(rooms, room) == Admission::Full,
        after_join(rooms, room, peer) == rooms,
{
}

/// In a table without rooms, the first peer to ask for a room creates it,
/// a second peer joins it, and whoever asks next finds it full.
pub proof fn lemma_admission_sequence(
    room: Seq<char>,
    first: Seq<char>,
    second: Seq<char>,
    third: Seq<char>,
)
    requires
        first != second,
    ensures
        ({
            let fresh = Rooms::empty();
            let created = after_join(fresh, room, first);
            let joined = after_join(created, room, second);
            &&& spec_admission(fresh, room) == Admission::Created
            &&& spec_admission(created, room) == Admission::Joined
            &&& spec_admission(joined, room) == Admission::Full
            &&& after_join(joined, room, third) == joined
            &&& joined[room] == Set::empty().insert(first).insert(second)
        }),
{
}

/// Once one of the two members of a room has left, the room no longer holds
/// that peer, and the next peer to ask is let in.
pub proof fn lemma_leave_frees_a_place(rooms: Rooms, room: Seq<char>, peer: Seq<char>)
    requires
        within_capacity(rooms),
        rooms.dom().contains(room),
        rooms[room].contains(peer),
        rooms[room].len() == 2,
    ensures
        ({
            let after = after_leave(rooms, room, peer);
            &&& after.dom().contains(room)
            &&& after[room] == rooms[room].remove(peer)
            &&& !after[room].contains(peer)
            &&& spec_admission(after, room) == Admission::Joined
        }),
{
    let rest = rooms[room].remove(peer);
    assert(rest.len() == 1);
    assert(!(rest =~= Set::<Seq<char>>::empty()));
}

/// A peer that has left is in the room no more, whether or not the room is
/// still there.
pub proof fn lemma_leave_removes_peer(rooms: Rooms, room: Seq<char>, peer: Seq<char>)
    ensures
        ({
            let after = after_leave(rooms, room, peer);
            after.dom().contains(room) ==> !after[room].contains(peer)
        }),
{
}

/// Leaving is idempotent: to leave twice is to leave once.
pub proof fn lemma_leave_twice(rooms: Rooms, room: Seq<char>, peer: Seq<char>)
    ensures
        after_leave(after_leave(rooms, room, peer), room, peer) == after_leave(rooms, room, peer),
{
    let once = after_leave(rooms, room, peer);
    if once.dom().contains(room) {
        assert(once[room].remove(peer) =~= once[room]);
        assert(once.insert(room, once[room]) =~= once);
    }
}

/// When the last member of a room leaves, the room is gone, and the next
/// peer to ask for it creates it anew.
pub proof fn lemma_last_leave_evicts(rooms: Rooms, room: Seq<char>, peer: Seq<char>)
    requires
        rooms.dom().contains(room),
        rooms[room] == Set::empty().insert(peer),
    ensures
        ({
            let after = after_leave(rooms, room, peer);
            &&& !after.dom().contains(room)
            &&& after == rooms.remove(room)
            &&& spec_admission(after, room) == Admission::Created
        }),
{
    assert(rooms[room].remove(peer) =~= Set::empty());
}

/// What happens in one room leaves every other room as it was.
pub proof fn lemma_rooms_are_independent(
    rooms: Rooms,
    room: Seq<char>,
    peer: Seq<char>,
    other: Seq<char>,
)
    requires
        other != room,
    ensures
        after_join(rooms, room, peer).dom().contains(other) == rooms.dom().contains(other),
        after_leave(rooms, room, peer).dom().contains(other) == rooms.dom().contains(other),
        rooms.dom().contains(other) ==> after_join(rooms, room, peer)[other] == rooms[other]
            && after_leave(rooms, room, peer)[other] == rooms[other],
{
}

/// One room: its identifier, its members in the order in which they came,
/// and the publishing end of its channel.
struct Room {
    id: String,
    members: Vec<String>,
    sender: Sender<String>,
}

impl Room {
    /// The members as a set.
    spec fn peers(&self) -> Set<Seq<char>> {
        Set::new(
            |peer: Seq<char>|
                exists|k: int| 0 <= k < self.members.len() && (#[trigger] self.members[k])@ == peer,
        )
    }

    /// One or two members, no peer twice.
    spec fn sound(&self) -> bool {
        &&& 1 <= self.members.len() <= ROOM_CAPACITY
        &&& forall|j: int, k: int|
            0 <= j < k < self.members.len() ==> self.members[j]@ != self.members[k]@
    }

    /// A sound room has as many peers as it lists members.
    proof fn lemma_peers(self)
        requires
            self.sound(),
        ensures
            self.peers().finite(),
            self.peers().len() == self.members.len(),
            forall|k: int| 0 <= k < self.members.len() ==> self.peers().contains(self.members[k]@),
    {
        let first = self.members[0]@;
        if self.members.len() == 1 {
            assert(self.peers() =~= Set::empty().insert(first));
        } else {
            let second = self.members[1]@;
            assert(self.peers() =~= Set::empty().insert(first).insert(second));
        }
    }
}

/// Where `peer_id` stands among `members`.
fn position(members: &Vec<String>, peer_id: &str) -> (found: Option<usize>)
    ensures
        match found {
            Some(k) => k < members.len() && members[k as int]@ == peer_id@,
            None => forall|k: int| 0 <= k < members.len() ==> (#[trigger] members[k])@ != peer_id@,
        },
{
    let mut k: usize = 0;
    while k < members.len()
        invariant
            k <= members.len(),
            forall|j: int| 0 <= j < k ==> (#[trigger] members[j])@ != peer_id@,
        decreases members.len() - k,
    {
        if same_text(members[k].as_str(), peer_id) {
            return Some(k);
        }
        k += 1;
    }
    None
}

/// The table of rooms. No two rooms share an identifier, and every room is
/// within its capacity: the type keeps both, so every registry that a caller
/// can hold has them.
pub struct Registry {
    rooms: Vec<Room>,
}

impl View for Registry {
    type V = Rooms;

    closed spec fn view(&self) -> Rooms {
        Map::new(
            |room: Seq<char>| self.has(room),
            |room: Seq<char>| self.rooms[self.slot(room)].peers(),
        )
    }
}

impl Registry {
    #[verifier::type_invariant]
    spec fn inv(&self) -> bool {
        &&& forall|i: int, j: int|
            0 <= i < j < self.rooms.len() ==> self.rooms[i].id@ != self.rooms[j].id@
        &&& forall|i: int| 0 <= i < self.rooms.len() ==> (#[trigger] self.rooms[i]).sound()
    }

    /// Whether the table lists a room of this identifier.
    spec fn has(&self, room: Seq<char>) -> bool {
        exists|i: int| 0 <= i < self.rooms.len() && (#[trigger] self.rooms[i]).id@ == room
    }

    /// Where the table lists that room.
    spec fn slot(&self, room: Seq<char>) -> int {
        choose|i: int| 0 <= i < self.rooms.len() && (#[trigger] self.rooms[i]).id@ == room
    }

    /// The view holds exactly the listed rooms, each with its peers.
    proof fn lemma_rooms(self)
        requires
            self.inv(),
        ensures
            within_capacity(self@),
            forall|i: int|
                0 <= i < self.rooms.len() ==> self@.dom().contains((#[trigger] self.rooms[i]).id@)
                    && self@[self.rooms[i].id@] == self.rooms[i].peers(),
            forall|room: Seq<char>|
                self@.dom().contains(room) ==> 0 <= self.slot(room) < self.rooms.len()
                    && self.rooms[self.slot(room)].id@ == room,
    {
        assert forall|i: int| 0 <= i < self.rooms.len() implies self@.dom().contains(
            (#[trigger] self.rooms[i]).id@,
        ) && self@[self.rooms[i].id@] == self.rooms[i].peers() by {
            let room = self.rooms[i].id@;
            assert(self.has(room));
            assert(self.slot(room) == i);
        }
        assert forall|room: Seq<char>| #[trigger] self@.dom().contains(room) implies {
            &&& self@[room].finite()
            &&& 1 <= self@[room].len() <= 2
        } by {
            let i = self.slot(room);
            self.rooms[i].lemma_peers();
        }
    }

    /// Whether `rooms` has the `i`-th listed room, with its peers.
    spec fn holds(&self, rooms: Rooms, i: int) -> bool {
        &&& rooms.dom().contains(self.rooms[i].id@)
        &&& rooms[self.rooms[i].id@] == self.rooms[i].peers()
    }

    /// A map that has every listed room, and no other, is the view.
    proof fn lemma_view_is(self, rooms: Rooms)
        requires
            self.inv(),
            forall|i: int| 0 <= i < self.rooms.len() ==> self.holds(rooms, i),
            forall|room: Seq<char>| rooms.dom().contains(room) ==> self.has(room),
        ensures
            self@ == rooms,
    {
        self.lemma_rooms();
        assert forall|room: Seq<char>| #[trigger] self@.dom().contains(room) implies {
            &&& rooms.dom().contains(room)
            &&& self@[room] == rooms[room]
        } by {
            assert(self.holds(rooms, self.slot(room)));
        }
        assert forall|room: Seq<char>| #[trigger]
            rooms.dom().contains(room) implies self@.dom().contains(room) by {
            assert(self.has(room));
        }
        assert(self@ =~= rooms);
    }

    /// A registry without rooms.
    pub fn new() -> (registry: Registry)
        ensures
            registry@ == Map::<Seq<char>, Set<Seq<char>>>::empty(),
    {
        let registry = Registry { rooms: Vec::new() };
        assert(registry@ =~= Map::<Seq<char>, Set<Seq<char>>>::empty());
        registry
    }

    /// Admits `peer_id` to the room `room_id`, or says that the room is full.
    ///
    /// A room that does not exist is created with the peer as its only
    /// member. A room with a free place takes the peer. A room with two
    /// members is left as it is. The test and the change are one step.
    pub fn join_or_create(&mut self, room_id: &str, peer_id: &str) -> (admission: Admission)
        ensures
            admission == spec_admission(old(self)@, room_id@),
            final(self)@ == after_join(old(self)@, room_id@, peer_id@),
            within_capacity(final(self)@),
    {
        proof {
            use_type_invariant(&*self);
            self.lemma_rooms();
        }
        let ghost before = *self;
        let ghost expected = after_join(before@, room_id@, peer_id@);
        let admission = match self.find(room_id) {
            None => {
                let mut members: Vec<String> = Vec::new();
                members.push(peer_id.to_owned());
                let room = Room {
                    id: room_id.to_owned(),
                    members,
                    sender: open_channel(CHANNEL_CAPACITY),
                };
                proof {
                    assert(room.members[0]@ == peer_id@);
                    assert(room.peers() =~= Set::empty().insert(peer_id@));
                }
                let mut rooms = self.take_rooms();
                rooms.push(room);
                self.rooms = rooms;
                proof {
                    assert forall|i: int| 0 <= i < self.rooms.len() implies self.holds(expected, i) by {
                        if i < before.rooms.len() {
                            assert(self.rooms[i] == before.rooms[i]);
                        }
                    }
                    assert forall|room: Seq<char>| expected.dom().contains(room) implies self.has(
                        room,
                    ) by {
                        if room == room_id@ {
                            assert(self.rooms[self.rooms.len() - 1].id@ == room);
                        } else {
                            let i = before.slot(room);
                            assert(self.rooms[i] == before.rooms[i]);
                        }
                    }
                }
                Admission::Created
            },
            Some(i) => {
                proof {
                    before.rooms[i as int].lemma_peers();
                }
                if self.rooms[i].members.len() < ROOM_CAPACITY {
                    if position(&self.rooms[i].members, peer_id).is_none() {
                        let mut rooms = self.take_rooms();
                        let mut room = rooms.remove(i);
                        room.members.push(peer_id.to_owned());
                        proof {
                            assert(room.peers() =~= before.rooms[i as int].peers().insert(peer_id@))
                                by {
                                assert forall|peer: Seq<char>|
                                    before.rooms[i as int].peers().insert(peer_id@).contains(
                                        peer,
                                    ) implies room.peers().contains(peer) by {
                                    if peer == peer_id@ {
                                        assert(room.members[room.members.len() - 1]@ == peer);
                                    } else {
                                        let k = choose|k: int|
                                            0 <= k < before.rooms[i as int].members.len() && (
                                            #[trigger] before.rooms[i as int].members[k])@ == peer;
                                        assert(room.members[k]@ == peer);
                                    }
                                }
                            }
                        }
                        rooms.insert(i, room);
                        self.rooms = rooms;
                    } else {
                        proof {
                            assert(before.rooms[i as int].peers().insert(peer_id@)
                                =~= before.rooms[i as int].peers());
                        }
                    }
                    proof {
                        assert forall|j: int| 0 <= j < self.rooms.len() implies self.holds(expected, j) by {
                            if j != i {
                                assert(self.rooms[j] == before.rooms[j]);
                            }
                        }
                        assert forall|room: Seq<char>| expected.dom().contains(
                            room,
                        ) implies self.has(room) by {
                            let j = before.slot(room);
                            assert(self.rooms[j].id@ == room);
                        }
                    }
                    Admission::Joined
                } else {
                    proof {
                        assert(expected == before@);
                    }
                    Admission::Full
                }
            },
        };
        proof {
            use_type_invariant(&*self);
            if admission != Admission::Full {
                self.lemma_view_is(expected);
            }
            self.lemma_rooms();
        }
        admission
    }

    /// Takes `peer_id` out of the room `room_id`. A room that is left without
    /// members is removed from the table. Leaving a room that does not
    /// exist, or that the peer is not in, changes nothing.
    pub fn leave(&mut self, room_id: &str, peer_id: &str)
        ensures
            final(self)@ == after_leave(old(self)@, room_id@, peer_id@),
            within_capacity(final(self)@),
    {
        proof {
            use_type_invariant(&*self);
            self.lemma_rooms();
        }
        let ghost before = *self;
        let ghost expected = after_leave(before@, room_id@, peer_id@);
        if let Some(i) = self.find(room_id) {
            proof {
                before.rooms[i as int].lemma_peers();
            }
            let ghost peers = before.rooms[i as int].peers();
            match position(&self.rooms[i].members, peer_id) {
                None => {
                    proof {
                        assert(peers.remove(peer_id@) =~= peers);
                        assert(expected =~= before@);
                    }
                },
                Some(k) => {
                    let mut rooms = self.take_rooms();
                    let mut room = rooms.remove(i);
                    if room.members.len() == 1 {
                        proof {
                            assert(peers.remove(peer_id@) =~= Set::empty()) by {
                                assert forall|peer: Seq<char>| peers.contains(
                                    peer,
                                ) implies peer == peer_id@ by {
                                    let m = choose|m: int|
                                        0 <= m < room.members.len() && (
                                        #[trigger] room.members[m])@ == peer;
                                }
                            }
                        }
                        self.rooms = rooms;
                        proof {
                            assert forall|j: int| 0 <= j < self.rooms.len() implies self.holds(expected, j) by {
                                if j < i {
                                    assert(self.rooms[j] == before.rooms[j]);
                                } else {
                                    assert(self.rooms[j] == before.rooms[j + 1]);
                                }
                            }
                            assert forall|other: Seq<char>| expected.dom().contains(
                                other,
                            ) implies self.has(other) by {
                                let j = before.slot(other);
                                if j < i {
                                    assert(self.rooms[j].id@ == other);
                                } else {
                                    assert(self.rooms[j - 1].id@ == other);
                                }
                            }
                        }
                    } else {
                        let ghost full = room;
                        room.members.remove(k);
                        proof {
                            assert(room.members[0] == full.members[1 - k]);
                            assert(room.peers() =~= peers.remove(peer_id@)) by {
                                assert(full.members[k as int]@ == peer_id@);
                                assert(full.members[1 - k]@ != peer_id@);
                                assert forall|peer: Seq<char>| room.peers().contains(
                                    peer,
                                ) implies peers.remove(peer_id@).contains(peer) by {
                                    assert(peer == full.members[1 - k]@);
                                }
                                assert forall|peer: Seq<char>| peers.remove(peer_id@).contains(
                                    peer,
                                ) implies room.peers().contains(peer) by {
                                    let m = choose|m: int|
                                        0 <= m < full.members.len() && (
                                        #[trigger] full.members[m])@ == peer;
                                    assert(m == 1 - k);
                                }
                            }
                        }
                        rooms.insert(i, room);
                        self.rooms = rooms;
                        proof {
                            assert forall|j: int| 0 <= j < self.rooms.len() implies self.holds(expected, j) by {
                                if j != i {
                                    assert(self.rooms[j] == before.rooms[j]);
                                }
                            }
                            assert forall|other: Seq<char>| expected.dom().contains(
                                other,
                            ) implies self.has(other) by {
                                let j = before.slot(other);
                                assert(self.rooms[j].id@ == other);
                            }
                        }
                    }
                    proof {
                        use_type_invariant(&*self);
                        self.lemma_view_is(expected);
                    }
                },
            }
        }
        proof {
            use_type_invariant(&*self);
            self.lemma_rooms();
        }
    }

    /// A new receiver on the channel of the room `room_id`, which is handed
    /// every frame published in the room from now on. There is none for a
    /// room that does not exist.
    pub fn subscribe(&self, room_id: &str) -> (receiver: Option<Receiver<String>>)
        ensures
            receiver is Some <==> self@.dom().contains(room_id@),
            within_capacity(self@),
    {
        proof {
            use_type_invariant(self);
            self.lemma_rooms();
        }
        match self.find(room_id) {
            Some(i) => Some(attach(&self.rooms[i].sender)),
            None => None,
        }
    }

    /// A handle for publishing in the room `room_id` without going through
    /// the table again. There is none for a room that does not exist.
    pub fn sender(&self, room_id: &str) -> (sender: Option<Sender<String>>)
        ensures
            sender is Some <==> self@.dom().contains(room_id@),
            within_capacity(self@),
    {
        proof {
            use_type_invariant(self);
            self.lemma_rooms();
        }
        match self.find(room_id) {
            Some(i) => Some(share(&self.rooms[i].sender)),
            None => None,
        }
    }

    /// Encodes `envelope` and publishes it in the room `room_id`. Returns the
    /// number of receivers that the frame was queued for, and `None`, with
    /// nothing published, where the room does not exist.
    pub fn broadcast(&self, room_id: &str, envelope: &Envelope) -> (receivers: Option<usize>)
        ensures
            receivers is Some <==> self@.dom().contains(room_id@),
            within_capacity(self@),
    {
        proof {
            use_type_invariant(self);
            self.lemma_rooms();
        }
        match self.find(room_id) {
            Some(i) => Some(publish(&self.rooms[i].sender, envelope.encode())),
            None => None,
        }
    }

    /// Every room with its members, in no particular order: each room of
    /// the table once, with each of its members once.
    pub fn snapshot(&self) -> (listing: Vec<(String, Vec<String>)>)
        ensures
            within_capacity(self@),
            forall|i: int|
                0 <= i < listing.len() ==> self@.dom().contains((#[trigger] listing[i]).0@)
                    && spec_names(listing[i].1@) == self@[listing[i].0@] && listing[i].1.len()
                    == self@[listing[i].0@].len(),
            forall|room: Seq<char>|
                self@.dom().contains(room) ==> exists|i: int|
                    0 <= i < listing.len() && (#[trigger] listing[i]).0@ == room,
            forall|i: int, j: int|
                0 <= i < j < listing.len() ==> listing[i].0@ != listing[j].0@,
    {
        proof {
            use_type_invariant(self);
            self.lemma_rooms();
        }
        let mut listing: Vec<(String, Vec<String>)> = Vec::new();
        let mut i: usize = 0;
        while i < self.rooms.len()
            invariant
                i <= self.rooms.len(),
                listing.len() == i,
                self.inv(),
                forall|j: int|
                    0 <= j < i ==> (#[trigger] listing[j]).0@ == self.rooms[j].id@ && spec_names(
                        listing[j].1@,
                    ) == self.rooms[j].peers() && listing[j].1.len() == self.rooms[j].members.len(),
            decreases self.rooms.len() - i,
        {
            let room = &self.rooms[i];
            let mut members: Vec<String> = Vec::new();
            let mut k: usize = 0;
            while k < room.members.len()
                invariant
                    k <= room.members.len(),
                    members.len() == k,
                    forall|m: int| 0 <= m < k ==> (#[trigger] members[m])@ == room.members[m]@,
                decreases room.members.len() - k,
            {
                members.push(room.members[k].clone());
                k += 1;
            }
            proof {
                assert(spec_names(members@) =~= room.peers()) by {
                    assert forall|peer: Seq<char>| room.peers().contains(
                        peer,
                    ) implies spec_names(members@).contains(peer) by {
                        let m = choose|m: int|
                            0 <= m < room.members.len() && (#[trigger] room.members[m])@ == peer;
                        assert(members[m]@ == peer);
                    }
                    assert forall|peer: Seq<char>| spec_names(members@).contains(
                        peer,
                    ) implies room.peers().contains(peer) by {
                        let m = choose|m: int|
                            0 <= m < members.len() && (#[trigger] members[m])@ == peer;
                        assert(room.members[m]@ == peer);
                    }
                }
            }
            listing.push((room.id.clone(), members));
            i += 1;
        }
        proof {
            assert forall|i: int| 0 <= i < listing.len() implies self@.dom().contains(
                (#[trigger] listing[i]).0@,
            ) && spec_names(listing[i].1@) == self@[listing[i].0@] && listing[i].1.len()
                == self@[listing[i].0@].len() by {
                assert(self.rooms[i].id@ == listing[i].0@);
                self.rooms[i].lemma_peers();
            }
            assert forall|room: Seq<char>| self@.dom().contains(room) implies exists|i: int|
                0 <= i < listing.len() && (#[trigger] listing[i]).0@ == room by {
                let i = self.slot(room);
                assert(listing[i].0@ == room);
            }
        }
        listing
    }

    /// Moves the list of rooms out, to be changed and put back.
    fn take_rooms(&mut self) -> (rooms: Vec<Room>)
        ensures
            rooms == old(self).rooms,
            final(self).rooms@.len() == 0,
    {
        let mut rooms: Vec<Room> = Vec::new();
        core::mem::swap(&mut self.rooms, &mut rooms);
        rooms
    }

    /// Where the table lists the room `room_id`.
    fn find(&self, room_id: &str) -> (found: Option<usize>)
        ensures
            match found {
                Some(i) => i < self.rooms.len() && self.rooms[i as int].id@ == room_id@,
                None => !self.has(room_id@),
            },
    {
        let mut i: usize = 0;
        while i < self.rooms.len()
            invariant
                i <= self.rooms.len(),
                forall|j: int| 0 <= j < i ==> (#[trigger] self.rooms[j]).id@ != room_id@,
            decreases self.rooms.len() - i,
        {
            if same_text(self.rooms[i].id.as_str(), room_id) {
                return Some(i);
            }
            i += 1;
        }
        None
    }
}

} // verus!

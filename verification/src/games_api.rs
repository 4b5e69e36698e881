//! The server's session layer: the registry of open game rooms, and the
//! per-connection relay state that correlates offers with answers over one
//! duplex channel.
//!
//! Waiting callers are represented by opaque tickets: the I/O layer maps a
//! ticket to its one-shot reply channel and resolves it when `take_answer`
//! hands the ticket back. A correlation left behind by a closing session is
//! simply dropped with the relay state; its caller's wait fails as a broken
//! channel.

use vstd::prelude::*;

verus! {

/// A correlated signaling payload exchanged with one game room: the offer
/// or answer text, and the request id pairing them.
#[derive(Debug)]
pub struct SdpMessage {
    pub data: String,
    pub id: u32,
}

/// What the server sends a freshly connected game room, or relays to it.
pub enum GameMessage {
    RoomId(String),
    SdpOffer(SdpMessage),
}

/// One room's relay: the monotonic request counter and the open
/// correlations, each pairing a handed-out request id with the waiting
/// caller's ticket.
pub struct RelayState {
    request_counter: u32,
    correlations: Vec<(u32, u64)>,
}

/// The index of the first correlation holding `id`, scanning from `i`
/// upward; `-1` when there is none.
pub open spec fn correlation_index_from(s: Seq<(u32, u64)>, id: u32, i: int) -> int
    decreases s.len() - i
    when 0 <= i <= s.len()
{
    if i >= s.len() {
        -1
    } else if s[i].0 == id {
        i
    } else {
        correlation_index_from(s, id, i + 1)
    }
}

impl RelayState {
    /// The next request id this relay will assign.
    pub closed spec fn spec_counter(&self) -> u32 {
        self.request_counter
    }

    /// The open correlations, oldest first.
    pub closed spec fn correlations_view(&self) -> Seq<(u32, u64)> {
        self.correlations@
    }

    /// Correlation ids are handed out in strictly increasing order and are
    /// all below the counter, so each open id is unique.
    pub open spec fn wf(&self) -> bool {
        &&& forall|i: int, j: int|
            0 <= i < j < self.correlations_view().len()
                ==> (#[trigger] self.correlations_view()[i]).0
                    < (#[trigger] self.correlations_view()[j]).0
        &&& forall|i: int| 0 <= i < self.correlations_view().len()
            ==> (#[trigger] self.correlations_view()[i]).0 < self.spec_counter()
    }

    /// A fresh relay with no open correlations.
    pub fn new() -> (r: RelayState)
        ensures
            r.wf(),
            r.spec_counter() == 0,
            r.correlations_view() == Seq::<(u32, u64)>::empty(),
    {
        RelayState { request_counter: 0, correlations: Vec::new() }
    }

    /// Queue one offer for the room: assign it the next request id, record
    /// the caller's ticket under that id, and build the message for the
    /// room's transport.
    pub fn queue_offer(&mut self, offer: String, ticket: u64) -> (r: SdpMessage)
        requires
            old(self).wf(),
            old(self).spec_counter() < u32::MAX,
        ensures
            final(self).wf(),
            r.id == old(self).spec_counter(),
            r.data == offer,
            final(self).spec_counter() == old(self).spec_counter() + 1,
            final(self).correlations_view()
                == old(self).correlations_view().push((old(self).spec_counter(), ticket)),
    {
        let id = self.request_counter;
        self.correlations.push((id, ticket));
        self.request_counter = self.request_counter + 1;
        proof {
            let s0 = old(self).correlations_view();
            let s1 = self.correlations_view();
            assert(s1 == s0.push((old(self).spec_counter(), ticket)));
            assert forall|a: int, b: int| 0 <= a < b < s1.len() implies
                (#[trigger] s1[a]).0 < (#[trigger] s1[b]).0 by {
                if b < s0.len() {
                    assert(s1[a] == s0[a] && s1[b] == s0[b]);
                } else {
                    assert(s1[b] == (old(self).spec_counter(), ticket));
                    assert(s1[a] == s0[a]);
                }
            }
            assert forall|a: int| 0 <= a < s1.len() implies
                (#[trigger] s1[a]).0 < self.spec_counter() by {
                if a < s0.len() {
                    assert(s1[a] == s0[a]);
                } else {
                    assert(s1[a] == (old(self).spec_counter(), ticket));
                }
            }
        }
        SdpMessage { data: offer, id }
    }

    /// Accept one answer from the room: if a correlation is open under the
    /// answer's request id, close it and hand back the waiting caller's
    /// ticket together with the answer text; an unknown id yields nothing
    /// and changes nothing.
    pub fn take_answer(&mut self, answer: SdpMessage) -> (r: Option<(u64, String)>)
        requires
            old(self).wf(),
        ensures
            final(self).wf(),
            ({
                let ci = correlation_index_from(old(self).correlations_view(), answer.id, 0);
                if ci >= 0 {
                    &&& r is Some
                    &&& r.unwrap().0 == old(self).correlations_view()[ci].1
                    &&& r.unwrap().1 == answer.data
                    &&& final(self).correlations_view()
                        == old(self).correlations_view().remove(ci)
                    &&& final(self).spec_counter() == old(self).spec_counter()
                } else {
                    r is None && *final(self) == *old(self)
                }
            }),
    {
        let n = self.correlations.len();
        let mut i: usize = 0;
        while i < n
            invariant
                old(self).wf(),
                self == old(self),
                n == self.correlations_view().len(),
                i <= n,
                correlation_index_from(self.correlations_view(), answer.id, 0)
                    == correlation_index_from(self.correlations_view(), answer.id, i as int),
            decreases n - i,
        {
            if self.correlations[i].0 == answer.id {
                proof {
                    assert(forall|a: int, b: int|
                        0 <= a < b < old(self).correlations_view().len()
                            ==> (#[trigger] old(self).correlations_view()[a]).0
                                < (#[trigger] old(self).correlations_view()[b]).0);
                    assert(forall|a: int| 0 <= a < old(self).correlations_view().len()
                        ==> (#[trigger] old(self).correlations_view()[a]).0
                            < old(self).spec_counter());
                }
                let (_, ticket) = self.correlations.remove(i);
                proof {
                    lemma_remove_keeps_sorted(
                        old(self).correlations_view(),
                        i as int,
                        old(self).spec_counter(),
                    );
                }
                return Some((ticket, answer.data));
            }
            i += 1;
        }
        None
    }
}

/// One open room: its id and the offers waiting for its relay, each with
/// the ticket of the caller awaiting the answer.
pub struct Room {
    pub id: String,
    pub pending_offers: Vec<(String, u64)>,
}

/// The registry of open rooms, keyed by room id. Insert, removal and
/// lookup happen under one exclusive guard in the I/O layer; the registry
/// itself holds the pure state.
pub struct RoomRegistry {
    rooms: Vec<Room>,
}

/// The index of the first room named `id`, scanning from `i` upward; `-1`
/// when there is none.
pub open spec fn room_index_from(rooms: Seq<Room>, id: Seq<char>, i: int) -> int
    decreases rooms.len() - i
    when 0 <= i <= rooms.len()
{
    if i >= rooms.len() {
        -1
    } else if rooms[i].id@ == id {
        i
    } else {
        room_index_from(rooms, id, i + 1)
    }
}

/// The registry refuses an id collision with this error; an offer for an
/// unknown room is reported as not found.
#[derive(Clone, Copy, PartialEq, Eq, Structural, Debug)]
pub enum RegistryError {
    IdTaken,
    RoomNotFound,
}

impl RoomRegistry {
    /// The open rooms, oldest first.
    pub closed spec fn rooms_view(&self) -> Seq<Room> {
        self.rooms@
    }

    /// Room ids are unique.
    pub open spec fn wf(&self) -> bool {
        forall|i: int, j: int| 0 <= i < j < self.rooms_view().len()
            ==> (#[trigger] self.rooms_view()[i]).id@ != (#[trigger] self.rooms_view()[j]).id@
    }

    /// An empty registry.
    pub fn new() -> (r: RoomRegistry)
        ensures
            r.wf(),
            r.rooms_view() == Seq::<Room>::empty(),
    {
        RoomRegistry { rooms: Vec::new() }
    }

    /// The index of the room named `id`, if it is open.
    fn find_room(&self, id: &String) -> (r: Option<usize>)
        ensures
            match r {
                Some(i) => room_index_from(self.rooms_view(), id@, 0) == i
                    && i < self.rooms_view().len() && self.rooms_view()[i as int].id@ == id@,
                None => room_index_from(self.rooms_view(), id@, 0) == -1,
            },
    {
        let n = self.rooms.len();
        let mut i: usize = 0;
        while i < n
            invariant
                n == self.rooms_view().len(),
                i <= n,
                room_index_from(self.rooms_view(), id@, 0)
                    == room_index_from(self.rooms_view(), id@, i as int),
            decreases n - i,
        {
            if self.rooms[i].id.eq(id) {
                return Some(i);
            }
            i += 1;
        }
        None
    }

    /// Open a room under `id` with an empty offer queue; fails exactly on
    /// an id collision, leaving the registry unchanged.
    pub fn register(&mut self, id: String) -> (r: Result<(), RegistryError>)
        requires
            old(self).wf(),
        ensures
            final(self).wf(),
            r is Ok <==> room_index_from(old(self).rooms_view(), id@, 0) == -1,
            r is Ok ==> final(self).rooms_view().len() == old(self).rooms_view().len() + 1
                && final(self).rooms_view()[old(self).rooms_view().len() as int].id@ == id@
                && final(self).rooms_view()[old(self).rooms_view().len() as int]
                    .pending_offers@ == Seq::<(String, u64)>::empty()
                && forall|i: int| 0 <= i < old(self).rooms_view().len()
                    ==> final(self).rooms_view()[i] == old(self).rooms_view()[i],
            r matches Err(e) ==> *final(self) == *old(self) && e == RegistryError::IdTaken,
    {
        let found = self.find_room(&id);
        match found {
            Some(_) => Err(RegistryError::IdTaken),
            None => {
                proof {
                    lemma_room_index_none(self.rooms_view(), id@, 0);
                }
                self.rooms.push(Room { id, pending_offers: Vec::new() });
                Ok(())
            },
        }
    }

    /// Queue an offer for the room named `id`, under the caller's ticket;
    /// an unknown id is reported as not found at once, changing nothing —
    /// the caller never blocks on it.
    pub fn route_offer(&mut self, id: &String, offer: String, ticket: u64) -> (r: Result<
        (),
        RegistryError,
    >)
        requires
            old(self).wf(),
        ensures
            final(self).wf(),
            r is Ok <==> room_index_from(old(self).rooms_view(), id@, 0) >= 0,
            r is Ok ==> ({
                let ri = room_index_from(old(self).rooms_view(), id@, 0);
                &&& final(self).rooms_view().len() == old(self).rooms_view().len()
                &&& final(self).rooms_view()[ri].id == old(self).rooms_view()[ri].id
                &&& final(self).rooms_view()[ri].pending_offers@
                    == old(self).rooms_view()[ri].pending_offers@.push((offer, ticket))
                &&& forall|i: int| 0 <= i < old(self).rooms_view().len() && i != ri
                    ==> final(self).rooms_view()[i] == old(self).rooms_view()[i]
            }),
            r matches Err(e) ==> *final(self) == *old(self) && e == RegistryError::RoomNotFound,
    {
        let found = self.find_room(id);
        match found {
            None => Err(RegistryError::RoomNotFound),
            Some(i) => {
                let room = &mut self.rooms[i];
                room.pending_offers.push((offer, ticket));
                proof {
                    assert(self.rooms_view()[i as int].id == old(self).rooms_view()[i as int].id);
                }
                Ok(())
            },
        }
    }

    /// Hand the room's oldest pending offer to its relay, if any.
    pub fn take_next_offer(&mut self, id: &String) -> (r: Option<(String, u64)>)
        requires
            old(self).wf(),
        ensures
            final(self).wf(),
            ({
                let ri = room_index_from(old(self).rooms_view(), id@, 0);
                if ri >= 0 && old(self).rooms_view()[ri].pending_offers@.len() > 0 {
                    &&& r is Some
                    &&& r.unwrap() == old(self).rooms_view()[ri].pending_offers@[0]
                    &&& final(self).rooms_view().len() == old(self).rooms_view().len()
                    &&& final(self).rooms_view()[ri].id == old(self).rooms_view()[ri].id
                    &&& final(self).rooms_view()[ri].pending_offers@
                        == old(self).rooms_view()[ri].pending_offers@.remove(0)
                    &&& forall|i: int| 0 <= i < old(self).rooms_view().len() && i != ri
                        ==> final(self).rooms_view()[i] == old(self).rooms_view()[i]
                } else {
                    r is None && *final(self) == *old(self)
                }
            }),
    {
        let found = self.find_room(id);
        match found {
            None => None,
            Some(i) => {
                if self.rooms[i].pending_offers.len() > 0 {
                    let room = &mut self.rooms[i];
                    let (offer, ticket) = room.pending_offers.remove(0);
                    proof {
                        assert(self.rooms_view()[i as int].id
                            == old(self).rooms_view()[i as int].id);
                    }
                    Some((offer, ticket))
                } else {
                    None
                }
            },
        }
    }

    /// Close the room named `id`, dropping its pending offers; their
    /// callers resolve as broken channels in the I/O layer. Unknown ids
    /// change nothing.
    pub fn deregister(&mut self, id: &String)
        requires
            old(self).wf(),
        ensures
            final(self).wf(),
            ({
                let ri = room_index_from(old(self).rooms_view(), id@, 0);
                if ri >= 0 {
                    final(self).rooms_view() == old(self).rooms_view().remove(ri)
                } else {
                    *final(self) == *old(self)
                }
            }),
    {
        let found = self.find_room(id);
        match found {
            None => {},
            Some(i) => {
                let _ = self.rooms.remove(i);
                proof {
                    assert forall|a: int, b: int|
                        0 <= a < b < self.rooms_view().len() implies
                        (#[trigger] self.rooms_view()[a]).id@
                            != (#[trigger] self.rooms_view()[b]).id@ by {
                        let a0 = if a < i as int { a } else { a + 1 };
                        let b0 = if b < i as int { b } else { b + 1 };
                        assert(self.rooms_view()[a] == old(self).rooms_view()[a0]);
                        assert(self.rooms_view()[b] == old(self).rooms_view()[b0]);
                    }
                }
            },
        }
    }
}

/// Removing an entry of a strictly increasing, bounded correlation list
/// keeps it strictly increasing and bounded.
proof fn lemma_remove_keeps_sorted(s: Seq<(u32, u64)>, i: int, bound: u32)
    requires
        forall|a: int, b: int| 0 <= a < b < s.len()
            ==> (#[trigger] s[a]).0 < (#[trigger] s[b]).0,
        forall|a: int| 0 <= a < s.len() ==> (#[trigger] s[a]).0 < bound,
        0 <= i < s.len(),
    ensures
        forall|a: int, b: int| 0 <= a < b < s.remove(i).len()
            ==> (#[trigger] s.remove(i)[a]).0 < (#[trigger] s.remove(i)[b]).0,
        forall|a: int| 0 <= a < s.remove(i).len() ==> (#[trigger] s.remove(i)[a]).0 < bound,
{
    let t = s.remove(i);
    assert forall|a: int, b: int| 0 <= a < b < t.len() implies
        (#[trigger] t[a]).0 < (#[trigger] t[b]).0 by {
        let a0 = if a < i { a } else { a + 1 };
        let b0 = if b < i { b } else { b + 1 };
        assert(t[a] == s[a0] && t[b] == s[b0]);
    }
    assert forall|a: int| 0 <= a < t.len() implies (#[trigger] t[a]).0 < bound by {
        let a0 = if a < i { a } else { a + 1 };
        assert(t[a] == s[a0]);
    }
}

/// When the scan reports no room, no room at or past `i` carries the id.
proof fn lemma_room_index_none(rooms: Seq<Room>, id: Seq<char>, i: int)
    requires
        0 <= i <= rooms.len(),
        room_index_from(rooms, id, i) == -1,
    ensures
        forall|j: int| i <= j < rooms.len() ==> (#[trigger] rooms[j]).id@ != id,
    decreases rooms.len() - i,
{
    if i < rooms.len() {
        lemma_room_index_none(rooms, id, i + 1);
    }
}

/// Relies on rand::random: sixteen independent bytes from the thread-local
/// generator.
#[verifier::external_body]
fn random_bytes_16() -> (r: Vec<u8>)
    ensures
        r@.len() == 16,
{
    rand::random::<[u8; 16]>().to_vec()
}

/// What base64-url encoding (URL-safe alphabet, unpadded) yields on a byte
/// sequence.
pub uninterp spec fn b64url_of(bytes: Seq<u8>) -> Seq<char>;

/// Relies on base64_url::encode: the URL-safe unpadded encoding is a
/// function of the input bytes alone, four characters for three bytes and
/// no padding for a partial group.
#[verifier::external_body]
fn b64url_encode(bytes: &[u8]) -> (r: String)
    ensures
        r@ == b64url_of(bytes@),
        r@.len() == (4 * bytes@.len() + 2) / 3,
{
    base64_url::encode(bytes)
}

/// A fresh room id: sixteen random bytes in URL-safe base64, twenty-two
/// characters. Ids are drawn from a space large enough that a collision is
/// treated as negligible.
pub fn generate_id() -> (r: String)
    ensures
        r@.len() == 22,
{
    let random_bytes = random_bytes_16();
    let id = b64url_encode(random_bytes.as_slice());
    id
}

/// Open one room for a freshly connected game: draw a fresh id, register
/// it, and build the first message that tells the room its id. Fails only
/// on an id collision, which the id space makes negligible; the registry is
/// then unchanged.
pub fn open_room(registry: &mut RoomRegistry) -> (r: Option<(String, GameMessage)>)
    requires
        old(registry).wf(),
    ensures
        final(registry).wf(),
        r matches Some(opened) ==> ({
            &&& opened.0@.len() == 22
            &&& room_index_from(old(registry).rooms_view(), opened.0@, 0) == -1
            &&& final(registry).rooms_view().len() == old(registry).rooms_view().len() + 1
            &&& final(registry).rooms_view()[old(registry).rooms_view().len() as int].id@
                == opened.0@
            &&& final(registry).rooms_view()[old(registry).rooms_view().len() as int]
                .pending_offers@ == Seq::<(String, u64)>::empty()
            &&& opened.1 matches GameMessage::RoomId(id) && id@ == opened.0@
        }),
        r is None ==> *final(registry) == *old(registry),
{
    let id = generate_id();
    let announced = id.clone();
    match registry.register(id) {
        Ok(()) => Some((announced.clone(), GameMessage::RoomId(announced))),
        Err(_) => None,
    }
}

/// Move the room's oldest pending offer into its relay: assign it the next
/// request id, record the waiting caller's ticket under that id, and build
/// the message for the room's transport. Nothing happens when no offer
/// waits.
pub fn next_offer_message(
    registry: &mut RoomRegistry,
    relay: &mut RelayState,
    id: &String,
) -> (r: Option<SdpMessage>)
    requires
        old(registry).wf(),
        old(relay).wf(),
        old(relay).spec_counter() < u32::MAX,
    ensures
        final(registry).wf(),
        final(relay).wf(),
        ({
            let ri = room_index_from(old(registry).rooms_view(), id@, 0);
            if ri >= 0 && old(registry).rooms_view()[ri].pending_offers@.len() > 0 {
                let queued = old(registry).rooms_view()[ri].pending_offers@[0];
                &&& r matches Some(m) && m.id == old(relay).spec_counter()
                    && m.data == queued.0
                &&& final(relay).spec_counter() == old(relay).spec_counter() + 1
                &&& final(relay).correlations_view() == old(relay).correlations_view()
                    .push((old(relay).spec_counter(), queued.1))
                &&& final(registry).rooms_view()[ri].pending_offers@
                    == old(registry).rooms_view()[ri].pending_offers@.remove(0)
            } else {
                r is None && *final(registry) == *old(registry)
                    && *final(relay) == *old(relay)
            }
        }),
{
    match registry.take_next_offer(id) {
        Some((offer, ticket)) => Some(relay.queue_offer(offer, ticket)),
        None => None,
    }
}

} // verus!

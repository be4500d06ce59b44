use crate::domain::chat_room::ChatRoomId;
use std::collections::HashMap;
use vstd::prelude::*;

verus! {

broadcast use vstd::std_specs::hash::group_hash_axioms;

/// Identifies one client connection to a room (a UUID, as its 128-bit value).
#[derive(PartialEq, Eq, Structural, Hash, Copy, Clone, Debug)]
pub struct ConnectionId(pub u128);

/// The registry of open chat rooms, keyed by room id.
///
/// `R` is whatever handle the server keeps for a running room.
pub struct Chat<R> {
    rooms: HashMap<u128, R>,
}

/// The registry after asking for room `id` with `room` as the room to create.
pub open spec fn with_room<R>(rooms: Map<u128, R>, id: u128, room: R) -> Map<u128, R> {
    if rooms.contains_key(id) {
        rooms
    } else {
        rooms.insert(id, room)
    }
}

/// There is one room per id: asking for a room again hands back the room registered the
/// first time, whatever room is offered, and leaves the registry as it was.
pub proof fn lemma_one_room_per_id<R>(rooms: Map<u128, R>, id: u128, first: R, second: R)
    ensures
        with_room(with_room(rooms, id, first), id, second) == with_room(rooms, id, first),
        with_room(with_room(rooms, id, first), id, second)[id] == if rooms.contains_key(id) {
            rooms[id]
        } else {
            first
        },
{
}

/// Asking for room `id` touches no other room: every other id keeps its room, or stays
/// without one; afterwards `id` has a room, the one it had before or else the one offered.
pub proof fn lemma_other_rooms_untouched<R>(rooms: Map<u128, R>, id: u128, room: R)
    ensures
        with_room(rooms, id, room).contains_key(id),
        rooms.contains_key(id) ==> with_room(rooms, id, room)[id] == rooms[id],
        !rooms.contains_key(id) ==> with_room(rooms, id, room)[id] == room,
        forall|k: u128|
            k != id ==> (#[trigger] with_room(rooms, id, room).contains_key(k)
                == rooms.contains_key(k)),
        forall|k: u128|
            k != id && rooms.contains_key(k) ==> #[trigger] with_room(rooms, id, room)[k]
                == rooms[k],
{
}

/// Removing room `id` forgets only that room.
pub proof fn lemma_remove_forgets_only_that_room<R>(rooms: Map<u128, R>, id: u128)
    ensures
        !rooms.remove(id).contains_key(id),
        forall|k: u128|
            k != id ==> (#[trigger] rooms.remove(id).contains_key(k) == rooms.contains_key(k)),
        forall|k: u128| k != id && rooms.contains_key(k) ==> #[trigger] rooms.remove(id)[k] == rooms[k],
{
}

/// A removed room is forgotten: asking for its id afterwards registers the room offered.
pub proof fn lemma_removed_room_is_recreated<R>(rooms: Map<u128, R>, id: u128, room: R)
    ensures
        with_room(rooms.remove(id), id, room)[id] == room,
{
}

impl<R> View for Chat<R> {
    type V = Map<u128, R>;

    /// The open rooms, by the 128-bit value of their id.
    closed spec fn view(&self) -> Map<u128, R> {
        self.rooms@
    }
}

impl<R> Chat<R> {
    /// A registry with no rooms.
    pub fn new() -> (chat: Chat<R>)
        ensures
            chat@ == Map::<u128, R>::empty(),
    {
        Chat { rooms: HashMap::new() }
    }

    /// The room registered under `id`; when there is none, `room` is registered and returned.
    pub fn get_or_create_room(&mut self, id: ChatRoomId, room: R) -> (r: &R)
        ensures
            final(self)@ == with_room(old(self)@, id.0, room),
            old(self)@.contains_key(id.0) ==> final(self)@ == old(self)@,
            !old(self)@.contains_key(id.0) ==> final(self)@ == old(self)@.insert(id.0, room),
            *r == final(self)@[id.0],
    {
        if !self.rooms.contains_key(&id.0) {
            self.rooms.insert(id.0, room);
        }
        self.rooms.get(&id.0).unwrap()
    }

    /// Forgets the room registered under `id`, if any.
    pub fn remove_room(&mut self, id: ChatRoomId)
        ensures
            final(self)@ == old(self)@.remove(id.0),
    {
        self.rooms.remove(&id.0);
    }
}

} // verus!

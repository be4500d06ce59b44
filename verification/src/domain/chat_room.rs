use crate::domain::chat::ConnectionId;
use crate::domain::circle_buffer::{latest, lemma_keeps_latest, pushed, pushed_all, CircleBuffer};
use std::collections::HashMap;
use vstd::std_specs::iter::IteratorSpec;
use vstd::prelude::*;

verus! {

broadcast use vstd::std_specs::hash::group_hash_axioms;

/// How many of the latest messages a room keeps to replay to new connections.
pub const HISTORY_SIZE: usize = 10;

/// Identifies a chat room (a UUID, as its 128-bit value).
#[derive(PartialEq, Eq, Structural, Hash, Copy, Clone, Debug)]
pub struct ChatRoomId(pub u128);

/// A client connected to a room, with the channel `C` on which it receives messages.
pub struct Connection<C> {
    pub id: ConnectionId,
    pub message_sender: C,
}

/// What a room holds, as its commands see it.
pub ghost struct RoomState<M, C> {
    /// The kept history, oldest message first.
    pub history: Seq<M>,
    /// The connected clients, by the 128-bit value of their id.
    pub connections: Map<u128, Connection<C>>,
    /// Whether a removal of the room is scheduled and not yet answered.
    pub pending_to_remove: bool,
}

impl<M, C> RoomState<M, C> {
    /// A new message joins the history, which keeps the latest [`HISTORY_SIZE`].
    pub open spec fn add_message(self, message: M) -> RoomState<M, C> {
        RoomState {
            history: pushed(self.history, HISTORY_SIZE as nat, message),
            connections: self.connections,
            pending_to_remove: self.pending_to_remove,
        }
    }

    /// A client is registered, replacing one registered under the same id.
    pub open spec fn connect(self, id: ConnectionId, message_sender: C) -> RoomState<M, C> {
        RoomState {
            history: self.history,
            connections: self.connections.insert(id.0, Connection { id, message_sender }),
            pending_to_remove: self.pending_to_remove,
        }
    }

    /// A client is unregistered; the flag tells whether the room's removal is to be
    /// scheduled: so it is when no client is left and no removal is pending yet.
    pub open spec fn disconnect(self, id: ConnectionId) -> (RoomState<M, C>, bool) {
        let connections = self.connections.remove(id.0);
        let schedule = connections.is_empty() && !self.pending_to_remove;
        (
            RoomState {
                history: self.history,
                connections,
                pending_to_remove: self.pending_to_remove || schedule,
            },
            schedule,
        )
    }

    /// A scheduled removal is answered; the flag tells whether the room is removed: so it is
    /// when no client is connected; otherwise the room stays and nothing is pending.
    pub open spec fn remove_room(self) -> (RoomState<M, C>, bool) {
        let remove = self.connections.is_empty();
        (
            RoomState {
                history: self.history,
                connections: self.connections,
                pending_to_remove: remove && self.pending_to_remove,
            },
            remove,
        )
    }
}

/// A message posted to a room is always kept: the history becomes the latest
/// [`HISTORY_SIZE`] of the old history followed by the message, whether or not a removal is
/// pending; the clients and the pending flag stay as they were.
pub proof fn lemma_add_message_keeps_message<M, C>(s: RoomState<M, C>, message: M)
    requires
        s.history.len() <= HISTORY_SIZE,
    ensures
        s.add_message(message).history == latest(s.history.push(message), HISTORY_SIZE as nat),
        s.add_message(message).history.len() > 0,
        s.add_message(message).history.last() == message,
        s.add_message(message).history.len() <= HISTORY_SIZE,
        s.add_message(message).connections == s.connections,
        s.add_message(message).pending_to_remove == s.pending_to_remove,
{
    lemma_keeps_latest(s.history, HISTORY_SIZE as nat, seq![message]);
    assert(seq![message].drop_last() =~= Seq::<M>::empty());
    assert(s.history + seq![message] =~= s.history.push(message));
}

/// Connecting registers the client under its id with its channel, leaves every other
/// client as it was, and changes neither the history nor the pending flag.
pub proof fn lemma_connect_registers_client<M, C>(
    s: RoomState<M, C>,
    id: ConnectionId,
    message_sender: C,
)
    ensures
        s.connect(id, message_sender).connections.contains_key(id.0),
        s.connect(id, message_sender).connections[id.0] == (Connection { id, message_sender }),
        forall|k: u128|
            k != id.0 ==> (#[trigger] s.connect(id, message_sender).connections.contains_key(k)
                == s.connections.contains_key(k)),
        forall|k: u128|
            k != id.0 && s.connections.contains_key(k) ==> #[trigger] s.connect(
                id,
                message_sender,
            ).connections[k] == s.connections[k],
        s.connect(id, message_sender).history == s.history,
        s.connect(id, message_sender).pending_to_remove == s.pending_to_remove,
{
}

/// Disconnecting unregisters exactly that client and keeps the history; it never clears
/// a pending removal, and it asks for a removal exactly when the room is left empty and
/// none is pending, in which case a removal is pending afterwards.
pub proof fn lemma_disconnect_schedules_when_empty<M, C>(s: RoomState<M, C>, id: ConnectionId)
    ensures
        !s.disconnect(id).0.connections.contains_key(id.0),
        forall|k: u128|
            k != id.0 ==> (#[trigger] s.disconnect(id).0.connections.contains_key(k)
                == s.connections.contains_key(k)),
        forall|k: u128|
            k != id.0 && s.connections.contains_key(k) ==> #[trigger] s.disconnect(
                id,
            ).0.connections[k] == s.connections[k],
        s.disconnect(id).0.history == s.history,
        s.pending_to_remove ==> s.disconnect(id).0.pending_to_remove,
        s.pending_to_remove ==> !s.disconnect(id).1,
        s.disconnect(id).1 ==> s.disconnect(id).0.connections.is_empty(),
        s.disconnect(id).1 ==> s.disconnect(id).0.pending_to_remove,
        !s.pending_to_remove && s.disconnect(id).0.connections.is_empty() ==> s.disconnect(id).1,
        !s.disconnect(id).1 ==> s.disconnect(id).0.pending_to_remove == s.pending_to_remove,
{
}

/// Answering a scheduled removal changes neither the clients nor the history; the room is
/// to be removed exactly when no client is connected, and when it stays, no removal is
/// pending any more.
pub proof fn lemma_remove_room_keeps_clients<M, C>(s: RoomState<M, C>)
    ensures
        s.remove_room().0.connections == s.connections,
        s.remove_room().0.history == s.history,
        s.remove_room().1 == s.connections.is_empty(),
        !s.remove_room().1 ==> !s.remove_room().0.pending_to_remove,
        s.remove_room().1 ==> s.remove_room().0.pending_to_remove == s.pending_to_remove,
{
}

/// One command to a room other than answering a removal.
pub enum RoomEvent<M, C> {
    Connect(ConnectionId, C),
    Disconnect(ConnectionId),
    AddMessage(M),
}

/// The state after one command, and whether that command asks for the room's removal.
pub open spec fn room_step<M, C>(s: RoomState<M, C>, event: RoomEvent<M, C>) -> (
    RoomState<M, C>,
    bool,
) {
    match event {
        RoomEvent::Connect(id, message_sender) => (s.connect(id, message_sender), false),
        RoomEvent::Disconnect(id) => s.disconnect(id),
        RoomEvent::AddMessage(message) => (s.add_message(message), false),
    }
}

/// The state after the commands `events`, in order.
pub open spec fn room_run<M, C>(s: RoomState<M, C>, events: Seq<RoomEvent<M, C>>) -> RoomState<
    M,
    C,
>
    decreases events.len(),
{
    if events.len() == 0 {
        s
    } else {
        room_step(room_run(s, events.drop_last()), events.last()).0
    }
}

/// While a removal is pending, whatever clients connect, leave or post, the removal stays
/// pending and no command asks for a second removal: only answering it can.
pub proof fn lemma_pending_removal_is_not_repeated<M, C>(
    s: RoomState<M, C>,
    events: Seq<RoomEvent<M, C>>,
)
    requires
        s.pending_to_remove,
    ensures
        room_run(s, events).pending_to_remove,
        forall|i: int|
            0 <= i < events.len() ==> !(#[trigger] room_step(room_run(s, events.take(i)), events[i])).1,
    decreases events.len(),
{
    if events.len() > 0 {
        let init = events.drop_last();
        lemma_pending_removal_is_not_repeated(s, init);
        assert forall|i: int| 0 <= i < events.len() implies !(#[trigger] room_step(
            room_run(s, events.take(i)),
            events[i],
        )).1 by {
            if i < init.len() {
                assert(events.take(i) =~= init.take(i));
                assert(events[i] == init[i]);
                assert(!room_step(room_run(s, init.take(i)), init[i]).1);
            } else {
                assert(events.take(i) =~= init);
            }
        }
    }
}

/// Once the last client leaves, the room's removal is scheduled once: a further
/// disconnect schedules nothing until the removal is answered.
pub proof fn lemma_removal_scheduled_once<M, C>(
    s: RoomState<M, C>,
    first: ConnectionId,
    second: ConnectionId,
)
    ensures
        s.disconnect(first).1 ==> !s.disconnect(first).0.disconnect(second).1,
{
}

/// When the last client has left and nobody connects before the scheduled removal is
/// answered, the room is removed.
pub proof fn lemma_empty_room_is_removed<M, C>(s: RoomState<M, C>, last: ConnectionId)
    ensures
        s.disconnect(last).1 ==> s.disconnect(last).0.remove_room().1,
{
}

/// A client that connects before a scheduled removal is answered keeps the room, and the
/// room's next emptying schedules a removal again.
pub proof fn lemma_reconnect_keeps_room<M, C>(
    s: RoomState<M, C>,
    last: ConnectionId,
    id: ConnectionId,
    message_sender: C,
)
    ensures
        s.disconnect(last).1 ==> {
            let back = s.disconnect(last).0.connect(id, message_sender);
            &&& !back.remove_room().1
            &&& !back.remove_room().0.pending_to_remove
            &&& back.remove_room().0.disconnect(id).1
        },
{
    let back = s.disconnect(last).0.connect(id, message_sender);
    assert(back.connections.contains_key(id.0));
    if s.disconnect(last).1 {
        assert(back.connections.remove(id.0) =~= Map::<u128, Connection<C>>::empty());
    }
}

/// The state of one chat room: its recent history (of messages `M`), the connected
/// clients (with their channels `C`), and whether its removal has been scheduled.
///
/// Each method decides what one command to the room does; the caller performs the
/// outside work (storing a message, sending on channels, waiting before removal).
pub struct ChatRoom<M, C> {
    id: ChatRoomId,
    messages: CircleBuffer<M>,
    connections: HashMap<u128, Connection<C>>,
    pending_to_remove: bool,
}

impl<M, C> View for ChatRoom<M, C> {
    type V = RoomState<M, C>;

    closed spec fn view(&self) -> RoomState<M, C> {
        RoomState {
            history: self.messages@,
            connections: self.connections@,
            pending_to_remove: self.pending_to_remove,
        }
    }
}

impl<M, C> ChatRoom<M, C> {
    /// The invariant that every command keeps.
    pub closed spec fn well_formed(&self) -> bool {
        &&& self.messages.well_formed()
        &&& self.messages.capacity() == HISTORY_SIZE
        &&& forall|k: u128| #[trigger]
            self.connections@.contains_key(k) ==> self.connections@[k].id.0 == k
    }

    /// The room's id.
    pub closed spec fn room_id(&self) -> ChatRoomId {
        self.id
    }

    /// An empty room with no connections.
    pub fn new(id: ChatRoomId) -> (room: ChatRoom<M, C>)
        ensures
            room.well_formed(),
            room.room_id() == id,
            room@.history == Seq::<M>::empty(),
            room@.connections == Map::<u128, Connection<C>>::empty(),
            !room@.pending_to_remove,
    {
        ChatRoom {
            id,
            messages: CircleBuffer::with_capacity(HISTORY_SIZE),
            connections: HashMap::with_capacity(HISTORY_SIZE),
            pending_to_remove: false,
        }
    }

    /// A room with no connections whose history is `messages`, pushed in order (so only
    /// the last [`HISTORY_SIZE`] of them are kept).
    pub fn with_messages(id: ChatRoomId, messages: Vec<M>) -> (room: ChatRoom<M, C>)
        ensures
            room.well_formed(),
            room.room_id() == id,
            room@.history == pushed_all(Seq::<M>::empty(), HISTORY_SIZE as nat, messages@),
            room@.connections == Map::<u128, Connection<C>>::empty(),
            !room@.pending_to_remove,
    {
        let mut room = ChatRoom::new(id);
        room.load_messages(messages);
        room
    }

    /// Replaces the history with `messages`, pushed in order.
    pub fn load_messages(&mut self, messages: Vec<M>)
        requires
            old(self).well_formed(),
        ensures
            final(self).well_formed(),
            final(self).room_id() == old(self).room_id(),
            final(self)@.history == pushed_all(Seq::<M>::empty(), HISTORY_SIZE as nat, messages@),
            final(self)@.connections == old(self)@.connections,
            final(self)@.pending_to_remove == old(self)@.pending_to_remove,
    {
        let mut buffer = CircleBuffer::with_capacity(HISTORY_SIZE);
        buffer.push_all(messages);
        self.messages = buffer;
    }

    /// The room's id.
    pub fn id(&self) -> (r: ChatRoomId)
        ensures
            r == self.room_id(),
    {
        self.id
    }

    /// The kept history, to replay to a client.
    pub fn get_messages(&self) -> (b: &CircleBuffer<M>)
        requires
            self.well_formed(),
        ensures
            b.well_formed(),
            b@ == self@.history,
            b.capacity() == HISTORY_SIZE,
    {
        &self.messages
    }

    /// The connection registered under `id`, if any.
    pub fn connection(&self, id: ConnectionId) -> (r: Option<&Connection<C>>)
        ensures
            self@.connections.contains_key(id.0) ==> r == Some(&self@.connections[id.0]),
            !self@.connections.contains_key(id.0) ==> r is None,
    {
        self.connections.get(&id.0)
    }

    /// Records a new message in the history and returns the clients to send it to:
    /// every connected client, each once.
    pub fn add_message(&mut self, message: M) -> (targets: Vec<ConnectionId>)
        requires
            old(self).well_formed(),
        ensures
            final(self).well_formed(),
            final(self).room_id() == old(self).room_id(),
            final(self)@ == old(self)@.add_message(message),
            final(self)@.history == latest(old(self)@.history.push(message), HISTORY_SIZE as nat),
            final(self)@.connections == old(self)@.connections,
            final(self)@.pending_to_remove == old(self)@.pending_to_remove,
            targets@.len() == old(self)@.connections.dom().len(),
            forall|i: int, j: int|
                0 <= i < j < targets@.len() ==> targets@[i] != targets@[j],
            forall|k: u128|
                old(self)@.connections.contains_key(k) <==> targets@.contains(ConnectionId(k)),
    {
        proof {
            self.messages.lemma_len_bounded();
            lemma_add_message_keeps_message(self@, message);
        }
        self.messages.push(message);
        let ghost keys = IteratorSpec::remaining(&self.connections.keys()).unref();
        assert(keys.to_set() == self.connections@.dom());
        assert(keys.no_duplicates());
        let mut targets: Vec<ConnectionId> = Vec::new();
        for key in it: self.connections.keys()
            invariant
                targets@.len() == it.index(),
                forall|i: int| 0 <= i < it.index() ==> targets@[i] == ConnectionId(*it.seq()[i]),
                it.seq().unref() == keys,
        {
            targets.push(ConnectionId(*key));
        }
        assert forall|k: u128|
            old(self)@.connections.contains_key(k) <==> targets@.contains(ConnectionId(k)) by {
            if old(self)@.connections.contains_key(k) {
                assert(keys.to_set().contains(k));
                let i = choose|i: int| 0 <= i < keys.len() && keys[i] == k;
                assert(targets@[i] == ConnectionId(k));
            }
            if targets@.contains(ConnectionId(k)) {
                let i = choose|i: int| 0 <= i < targets@.len() && targets@[i] == ConnectionId(k);
                assert(keys[i] == k);
                assert(keys.contains(k));
                assert(keys.to_set().contains(k));
            }
        }
        targets
    }

    /// Registers a client; a client already registered under the same id is replaced.
    /// The caller then replays [`Self::get_messages`] to it.
    pub fn connect(&mut self, connection_id: ConnectionId, message_sender: C)
        requires
            old(self).well_formed(),
        ensures
            final(self).well_formed(),
            final(self).room_id() == old(self).room_id(),
            final(self)@ == old(self)@.connect(connection_id, message_sender),
            final(self)@.connections == old(self)@.connections.insert(
                connection_id.0,
                Connection { id: connection_id, message_sender },
            ),
            final(self)@.history == old(self)@.history,
            final(self)@.pending_to_remove == old(self)@.pending_to_remove,
    {
        self.connections.insert(connection_id.0, Connection { id: connection_id, message_sender });
    }

    /// Unregisters a client. Returns whether the caller must schedule the room's removal:
    /// that is so when no client is left and no removal is scheduled yet.
    pub fn disconnect(&mut self, connection_id: ConnectionId) -> (schedule_removal: bool)
        requires
            old(self).well_formed(),
        ensures
            final(self).well_formed(),
            final(self).room_id() == old(self).room_id(),
            (final(self)@, schedule_removal) == old(self)@.disconnect(connection_id),
            final(self)@.connections == old(self)@.connections.remove(connection_id.0),
            final(self)@.history == old(self)@.history,
            schedule_removal == (final(self)@.connections.is_empty()
                && !old(self)@.pending_to_remove),
            final(self)@.pending_to_remove == (old(self)@.pending_to_remove || schedule_removal),
    {
        self.connections.remove(&connection_id.0);
        if self.connections.is_empty() && !self.pending_to_remove {
            self.pending_to_remove = true;
            true
        } else {
            false
        }
    }

    /// Answers a scheduled removal. Returns whether the room must be removed: that is so
    /// when no client is connected; otherwise the room stays and no removal is pending.
    pub fn remove_room(&mut self) -> (remove: bool)
        requires
            old(self).well_formed(),
        ensures
            final(self).well_formed(),
            final(self).room_id() == old(self).room_id(),
            (final(self)@, remove) == old(self)@.remove_room(),
            final(self)@.connections == old(self)@.connections,
            final(self)@.history == old(self)@.history,
            remove == old(self)@.connections.is_empty(),
            final(self)@.pending_to_remove == (remove && old(self)@.pending_to_remove),
    {
        if self.connections.is_empty() {
            true
        } else {
            self.pending_to_remove = false;
            false
        }
    }
}

} // verus!
use chat::domain::chat::{Chat, ConnectionId};
use chat::domain::chat_room::{ChatRoom, ChatRoomId, HISTORY_SIZE};
use chat::domain::circle_buffer::CircleBuffer;

#[derive(Clone, Debug, PartialEq)]
struct Message {
    id: u128,
    user: String,
    to: Option<String>,
    tags: Vec<String>,
    text: String,
}

fn history<M: Clone>(buffer: &CircleBuffer<M>) -> Vec<M> {
    let mut out = Vec::new();
    let mut it = buffer.iter();
    while let Some(m) = it.next() {
        out.push(m.clone());
    }
    out
}

#[test]
fn message_add() {
    let mut room: ChatRoom<Message, ()> =
        ChatRoom::new(ChatRoomId(uuid::Uuid::new_v4().as_u128()));

    let message = Message {
        id: uuid::Uuid::new_v4().as_u128(),
        user: String::from("user"),
        to: None,
        tags: vec![String::from("system")],
        text: String::from("message"),
    };

    room.add_message(message);

    let count = history(room.get_messages()).len();

    assert_eq!(1, count);
}

#[test]
fn history_keeps_latest_ten() {
    let mut room: ChatRoom<u32, ()> = ChatRoom::new(ChatRoomId(1));
    for i in 0..15u32 {
        room.add_message(i);
    }
    assert_eq!(HISTORY_SIZE, 10);
    assert_eq!(history(room.get_messages()), (5..15).collect::<Vec<u32>>());
}

#[test]
fn with_messages_keeps_order_and_latest() {
    let room: ChatRoom<u32, ()> = ChatRoom::with_messages(ChatRoomId(9), (0..12).collect());
    assert_eq!(room.id(), ChatRoomId(9));
    assert_eq!(history(room.get_messages()), (2..12).collect::<Vec<u32>>());
    let small: ChatRoom<u32, ()> = ChatRoom::with_messages(ChatRoomId(9), vec![3, 1, 2]);
    assert_eq!(history(small.get_messages()), vec![3, 1, 2]);
}

#[test]
fn load_messages_replaces_history() {
    let mut room: ChatRoom<u32, ()> = ChatRoom::new(ChatRoomId(2));
    room.add_message(42);
    room.load_messages(vec![7, 8]);
    assert_eq!(history(room.get_messages()), vec![7, 8]);
}

#[test]
fn broadcast_goes_to_every_connection_once() {
    let mut room: ChatRoom<u32, &'static str> = ChatRoom::new(ChatRoomId(3));
    assert!(room.add_message(1).is_empty());
    room.connect(ConnectionId(10), "a");
    room.connect(ConnectionId(20), "b");
    room.connect(ConnectionId(10), "c");
    let mut targets = room.add_message(2);
    targets.sort_by_key(|c| c.0);
    assert_eq!(targets, vec![ConnectionId(10), ConnectionId(20)]);
    assert_eq!(room.connection(ConnectionId(10)).map(|c| c.message_sender), Some("c"));
    assert_eq!(room.connection(ConnectionId(20)).map(|c| c.id), Some(ConnectionId(20)));
    assert!(room.connection(ConnectionId(30)).is_none());
    assert_eq!(history(room.get_messages()), vec![1, 2]);
}

#[test]
fn last_disconnect_schedules_removal_once() {
    let mut room: ChatRoom<u32, ()> = ChatRoom::new(ChatRoomId(4));
    room.connect(ConnectionId(1), ());
    room.connect(ConnectionId(2), ());
    assert!(!room.disconnect(ConnectionId(1)));
    assert!(room.disconnect(ConnectionId(2)));
    // already pending: a further disconnect schedules nothing more
    assert!(!room.disconnect(ConnectionId(2)));
    // nobody came back: the room goes
    assert!(room.remove_room());
}

#[test]
fn reconnect_cancels_removal() {
    let mut room: ChatRoom<u32, ()> = ChatRoom::new(ChatRoomId(5));
    room.connect(ConnectionId(1), ());
    assert!(room.disconnect(ConnectionId(1)));
    room.connect(ConnectionId(2), ());
    // somebody is connected: the room stays and the pending removal is dropped
    assert!(!room.remove_room());
    // so the next time the room empties, a removal is scheduled again
    assert!(room.disconnect(ConnectionId(2)));
}

#[test]
fn disconnect_unknown_on_empty_room_schedules_removal() {
    let mut room: ChatRoom<u32, ()> = ChatRoom::new(ChatRoomId(6));
    assert!(room.disconnect(ConnectionId(77)));
}

#[test]
fn registry_keeps_first_room() {
    let mut chat: Chat<&'static str> = Chat::new();
    assert_eq!(*chat.get_or_create_room(ChatRoomId(1), "first"), "first");
    assert_eq!(*chat.get_or_create_room(ChatRoomId(1), "second"), "first");
    assert_eq!(*chat.get_or_create_room(ChatRoomId(2), "other"), "other");
    chat.remove_room(ChatRoomId(1));
    assert_eq!(*chat.get_or_create_room(ChatRoomId(1), "third"), "third");
    assert_eq!(*chat.get_or_create_room(ChatRoomId(2), "x"), "other");
}

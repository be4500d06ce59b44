# chat

A WebSocket chat server. Clients join a room at `/chats/{room}`, send messages to it and
receive every message of the room, starting with the room's latest ten; `POST /messages`
returns a room's stored messages.

- `src/` is the verified library:
  - `domain::circle_buffer`: the fixed-capacity history buffer and its iterator;
  - `domain::chat_room`: what each command to a room does (new message, connect,
    disconnect, removal), over the room's history and connections;
  - `domain::chat`: the registry of open rooms;
  - `settings`: the settings model and how the settings files are chosen;
  - `migration`: the database addresses and set-up statements;
  - `app::cqrs`: the application error.
- `app/` is the program around it: the HTTP and WebSocket endpoints, the actors that run
  rooms, the database access and migrations, and the loading of settings.
- `tests/` exercises the library.

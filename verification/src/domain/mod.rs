pub mod chat;
pub mod chat_room;
pub mod circle_buffer;

pub mod room_entry;
pub mod scroll;
pub mod text;

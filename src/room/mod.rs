pub mod address;
pub mod net;

pub use address::RoomAddress;

pub mod app;
pub mod matrix;
pub mod sync;

use crate::room::RoomAddress;
use vstd::prelude::*;

verus! {

/// A request to open a room: its alias, and the tokens that choose and
/// configure its backend (`matrix <url> [username [password]]`).
#[derive(Debug)]
pub struct NewRoom {
    pub alias: String,
    pub command: Vec<String>,
}

#[derive(Debug)]
pub enum ActionKind {
    Sync,
    Connect,
    Disconnect,
    Publish(String),
    NewRoom(NewRoom),
}

/// An action and the room it is for.
#[derive(Debug)]
pub struct Action {
    pub room: RoomAddress,
    pub action: ActionKind,
}

#[derive(Debug)]
pub enum Error {
    BadId(String),
}

} // verus!

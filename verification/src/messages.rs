//! What the server sends to the terminal client, as the client reads it.

use vstd::prelude::*;

verus! {

/// A message from the server; a chat message is shown with its sender and
/// text, the room it came through being known to the client already.
#[derive(Debug)]
pub enum Messages {
    Message { from: String, text: String },
    Joined { room: String },
    Error { msg: String },
    Created { room: String },
}

} // verus!

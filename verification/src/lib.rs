//! Verified core of a small terminal chat system: the text handling of the
//! terminal client, the requests it puts on the wire, the rules by which it
//! reacts to the user and to the server, and the room bookkeeping of the
//! chat server.

pub mod communication;
pub mod errors;
pub mod layout;
pub mod messages;
pub mod server;
pub mod server_laws;
pub mod text;
pub mod wire;



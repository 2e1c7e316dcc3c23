//! The chat server's rules: which rooms exist, who is a member of which room,
//! and what the server answers each request of a connected client.
//!
//! A connection is identified by a random version-4 UUID, held as its 128-bit
//! value. Requests arrive as lines of JSON; the line framing and the JSON
//! decoding happen at the edge, and [`ServerState::handle`] takes the decoded
//! request (or `None` for a line that did not decode) and returns the messages
//! to hand out, each addressed to one connection, and whether the requesting
//! connection is to be closed.

use vstd::prelude::*;

use crate::server_laws::{start_is_well_formed, step_keeps_well_formed, well_formed};
use crate::text::{concat3, trim, trimmed};

verus! {

/// What a client asks of the server.
pub enum ClientCommand {
    JoinRoom { room: String },
    CreateRoom { room: String },
    Message { room: String, text: String, from: String },
}

/// What the server sends to a client.
pub enum ServerMessage {
    Joined { room: String },
    Message { room: String, from: String, text: String },
    Error { msg: String },
    Created { room: String },
}

/// A request, with its texts as character sequences.
pub enum ClientCommandView {
    JoinRoom { room: Seq<char> },
    CreateRoom { room: Seq<char> },
    Message { room: Seq<char>, text: Seq<char>, from: Seq<char> },
}

/// A server message, with its texts as character sequences.
pub enum ServerMessageView {
    Joined { room: Seq<char> },
    Message { room: Seq<char>, from: Seq<char>, text: Seq<char> },
    Error { msg: Seq<char> },
    Created { room: Seq<char> },
}

impl View for ClientCommand {
    type V = ClientCommandView;

    open spec fn view(&self) -> ClientCommandView {
        match self {
            ClientCommand::JoinRoom { room } => ClientCommandView::JoinRoom { room: room@ },
            ClientCommand::CreateRoom { room } => ClientCommandView::CreateRoom { room: room@ },
            ClientCommand::Message { room, text, from } => ClientCommandView::Message {
                room: room@,
                text: text@,
                from: from@,
            },
        }
    }
}

impl View for ServerMessage {
    type V = ServerMessageView;

    open spec fn view(&self) -> ServerMessageView {
        match self {
            ServerMessage::Joined { room } => ServerMessageView::Joined { room: room@ },
            ServerMessage::Message { room, from, text } => ServerMessageView::Message {
                room: room@,
                from: from@,
                text: text@,
            },
            ServerMessage::Error { msg } => ServerMessageView::Error { msg: msg@ },
            ServerMessage::Created { room } => ServerMessageView::Created { room: room@ },
        }
    }
}

/// The decoded request of a line, or `None` where the line did not decode.
pub open spec fn request_view(request: Option<ClientCommand>) -> Option<ClientCommandView> {
    match request {
        Some(c) => Some(c@),
        None => None,
    }
}

/// A message addressed to one connection.
pub struct Delivery {
    pub to: u128,
    pub message: ServerMessage,
}

impl View for Delivery {
    type V = (u128, ServerMessageView);

    open spec fn view(&self) -> (u128, ServerMessageView) {
        (self.to, self.message@)
    }
}

/// The server's answer to one request.
pub struct Reply {
    pub deliveries: Vec<Delivery>,
    /// Whether the server stops reading from the requesting connection.
    pub close: bool,
}

/// A reply, as the messages handed out and the closing flag.
pub struct ReplyView {
    pub deliveries: Seq<(u128, ServerMessageView)>,
    pub close: bool,
}

impl View for Reply {
    type V = ReplyView;

    open spec fn view(&self) -> ReplyView {
        ReplyView {
            deliveries: self.deliveries@.map_values(|d: Delivery| d@),
            close: self.close,
        }
    }
}

/// A room: its name and its members, in the order in which they joined.
pub struct RoomView {
    pub name: Seq<char>,
    pub members: Seq<u128>,
}

struct Room {
    name: String,
    members: Vec<u128>,
}

impl View for Room {
    type V = RoomView;

    closed spec fn view(&self) -> RoomView {
        RoomView { name: self.name@, members: self.members@ }
    }
}

/// Rooms in the order in which they were created.
struct RoomList {
    rooms: Vec<Room>,
}

impl View for RoomList {
    type V = Seq<RoomView>;

    closed spec fn view(&self) -> Seq<RoomView> {
        self.rooms@.map_values(|r: Room| r@)
    }
}

/// The rooms of a running server, in the order in which they were created.
/// No two rooms share a name, and nobody is listed twice as a member of a
/// room: every value of this type is well formed.
pub struct ServerState {
    rooms: RoomList,
}

impl View for ServerState {
    type V = Seq<RoomView>;

    closed spec fn view(&self) -> Seq<RoomView> {
        self.rooms@
    }
}

/// The index of the first room named `name` at or after `i`, or the number
/// of rooms where there is none.
pub open spec fn index_from(rooms: Seq<RoomView>, name: Seq<char>, i: nat) -> nat
    decreases rooms.len() - i,
{
    if i >= rooms.len() {
        rooms.len()
    } else if rooms[i as int].name == name {
        i
    } else {
        index_from(rooms, name, i + 1)
    }
}

/// The index of the room named `name`, or the number of rooms where there is none.
pub open spec fn room_index(rooms: Seq<RoomView>, name: Seq<char>) -> nat {
    index_from(rooms, name, 0)
}

/// Whether a room named `name` exists.
pub open spec fn has_room(rooms: Seq<RoomView>, name: Seq<char>) -> bool {
    room_index(rooms, name) < rooms.len()
}

/// The members after `client` joins: unchanged if it is a member already.
pub open spec fn with_member(members: Seq<u128>, client: u128) -> Seq<u128> {
    if members.contains(client) {
        members
    } else {
        members.push(client)
    }
}

/// A reply of one message to the requesting connection.
pub open spec fn answer(client: u128, message: ServerMessageView, close: bool) -> ReplyView {
    ReplyView { deliveries: seq![(client, message)], close }
}

/// The addressed copy of `message` for member `m`, for every member but `client`.
pub open spec fn copy_for(client: u128, message: ServerMessageView) -> spec_fn(u128) -> Option<
    (u128, ServerMessageView),
> {
    |m: u128| if m != client { Some((m, message)) } else { None }
}

/// The chat message handed to each member of a room but its sender.
pub open spec fn fan_out(members: Seq<u128>, client: u128, message: ServerMessageView) -> Seq<
    (u128, ServerMessageView),
> {
    members.filter_map(copy_for(client, message))
}

/// The rooms, and the reply, after `client` makes `request` (`None` for a
/// line that did not decode).
pub open spec fn step(rooms: Seq<RoomView>, client: u128, request: Option<ClientCommandView>) -> (
    Seq<RoomView>,
    ReplyView,
) {
    match request {
        None => (
            rooms,
            answer(client, ServerMessageView::Error { msg: "invalid command: {}"@ }, false),
        ),
        Some(ClientCommandView::CreateRoom { room }) => {
            if has_room(rooms, room) {
                (
                    rooms,
                    answer(
                        client,
                        ServerMessageView::Error { msg: "Room: "@ + room + " already exist"@ },
                        true,
                    ),
                )
            } else {
                (
                    rooms.push(RoomView { name: room, members: Seq::empty() }),
                    answer(client, ServerMessageView::Created { room }, false),
                )
            }
        },
        Some(ClientCommandView::JoinRoom { room }) => {
            if has_room(rooms, room) {
                let i = room_index(rooms, room) as int;
                (
                    rooms.update(
                        i,
                        RoomView { name: rooms[i].name, members: with_member(rooms[i].members, client) },
                    ),
                    answer(client, ServerMessageView::Joined { room }, false),
                )
            } else {
                (
                    rooms,
                    answer(
                        client,
                        ServerMessageView::Error {
                            msg: "Room: "@ + trimmed(room) + " does not exist"@,
                        },
                        true,
                    ),
                )
            }
        },
        Some(ClientCommandView::Message { room, text, from }) => {
            if has_room(rooms, room) {
                let i = room_index(rooms, room) as int;
                (
                    rooms,
                    ReplyView {
                        deliveries: fan_out(
                            rooms[i].members,
                            client,
                            ServerMessageView::Message { room, from, text },
                        ),
                        close: false,
                    },
                )
            } else {
                (
                    rooms,
                    answer(
                        client,
                        ServerMessageView::Error { msg: "room "@ + room + " does not exist"@ },
                        false,
                    ),
                )
            }
        },
    }
}

pub(crate) proof fn lemma_index_from_skip(rooms: Seq<RoomView>, name: Seq<char>, k: nat, i: nat)
    requires
        k <= i <= rooms.len(),
        forall|j: int| k <= j < i ==> #[trigger] rooms[j].name != name,
    ensures
        index_from(rooms, name, k) == index_from(rooms, name, i),
    decreases i - k,
{
    if k < i {
        lemma_index_from_skip(rooms, name, k + 1, i);
    }
}

fn single(client: u128, message: ServerMessage, close: bool) -> (reply: Reply)
    ensures
        reply@ == answer(client, message@, close),
{
    let mut deliveries: Vec<Delivery> = Vec::new();
    deliveries.push(Delivery { to: client, message });
    let reply = Reply { deliveries, close };
    assert(reply@.deliveries =~= seq![(client, message@)]);
    reply
}

/// Whether `id` has the version and variant fields of a random (version 4)
/// UUID: version 4 in bits 76 to 79, variant `0b10` in bits 62 and 63.
pub open spec fn is_v4_uuid(id: u128) -> bool {
    &&& (id >> 76u128) & 0xfu128 == 4
    &&& (id >> 62u128) & 0x3u128 == 2
}

/// Calls `uuid::Uuid::new_v4` and gives the UUID's value as `Uuid::as_u128`
/// reads it. The other 122 bits are random, and nothing is said of them; the
/// source of `new_v4` masks the random value so that the version field reads
/// 4 and the variant field `0b10`, which the contract states.
#[verifier::external_body]
fn random_v4_uuid() -> (id: u128)
    ensures
        is_v4_uuid(id),
{
    uuid::Uuid::new_v4().as_u128()
}

/// A fresh identity for a newly accepted connection: a random version-4 UUID.
pub fn new_connection_id() -> (id: u128)
    ensures
        is_v4_uuid(id),
{
    random_v4_uuid()
}

impl RoomList {
    fn new() -> (state: RoomList)
        ensures
            state@ == seq![RoomView { name: "lobby"@, members: Seq::<u128>::empty() }],
    {
        let mut rooms: Vec<Room> = Vec::new();
        rooms.push(Room { name: "lobby".to_owned(), members: Vec::new() });
        let state = RoomList { rooms };
        assert(state@ =~= seq![RoomView { name: "lobby"@, members: Seq::<u128>::empty() }]);
        state
    }

    fn is_member(&self, client: u128) -> (b: bool)
        ensures
            b == exists|i: int| 0 <= i < self@.len() && (#[trigger] self@[i]).members.contains(client),
    {
        let n = self.rooms.len();
        let mut i: usize = 0;
        while i < n
            invariant
                n == self.rooms@.len(),
                n == self@.len(),
                i <= n,
                forall|k: int| 0 <= k < i ==> !(#[trigger] self@[k]).members.contains(client),
            decreases n - i,
        {
            assert(self@[i as int] == self.rooms@[i as int]@);
            let m = self.rooms[i].members.len();
            let mut j: usize = 0;
            while j < m
                invariant
                    n == self.rooms@.len(),
                    i < n,
                    m == self.rooms@[i as int].members@.len(),
                    j <= m,
                    forall|q: int| 0 <= q < j ==> self.rooms@[i as int].members@[q] != client,
                decreases m - j,
            {
                if self.rooms[i].members[j] == client {
                    assert(self@[i as int].members[j as int] == client);
                    return true;
                }
                j = j + 1;
            }
            i = i + 1;
        }
        false
    }

    /// The index of the room named `name`, if there is one.
    fn find_room(&self, name: &str) -> (r: Option<usize>)
        ensures
            match r {
                Some(i) => i == room_index(self@, name@) && i < self@.len(),
                None => !has_room(self@, name@),
            },
    {
        let n = self.rooms.len();
        let mut i: usize = 0;
        while i < n
            invariant
                n == self.rooms@.len(),
                n == self@.len(),
                i <= n,
                forall|j: int| 0 <= j < i ==> #[trigger] self@[j].name != name@,
            decreases n - i,
        {
            assert(self@[i as int] == self.rooms@[i as int]@);
            if crate::text::str_equal(self.rooms[i].name.as_str(), name) {
                proof {
                    lemma_index_from_skip(self@, name@, 0, i as nat);
                }
                return Some(i);
            }
            i = i + 1;
        }
        proof {
            lemma_index_from_skip(self@, name@, 0, n as nat);
        }
        None
    }

    fn add_member(&mut self, i: usize, client: u128)
        requires
            i < old(self)@.len(),
        ensures
            final(self)@ == old(self)@.update(
                i as int,
                RoomView {
                    name: old(self)@[i as int].name,
                    members: with_member(old(self)@[i as int].members, client),
                },
            ),
    {
        let ghost before = self@;
        assert(before[i as int] == self.rooms@[i as int]@);
        let name = self.rooms[i].name.clone();
        let n = self.rooms[i].members.len();
        let mut members: Vec<u128> = Vec::new();
        let mut present = false;
        let mut j: usize = 0;
        while j < n
            invariant
                n == self.rooms@[i as int].members@.len(),
                i < self.rooms@.len(),
                j <= n,
                members@ == self.rooms@[i as int].members@.take(j as int),
                present == members@.contains(client),
            decreases n - j,
        {
            let m = self.rooms[i].members[j];
            proof {
                assert(self.rooms@[i as int].members@.take(j + 1) =~= members@.push(m));
                vstd::seq_lib::lemma_seq_contains_after_push(members@, m, client);
            }
            members.push(m);
            present = present || m == client;
            j = j + 1;
        }
        assert(members@ =~= self.rooms@[i as int].members@);
        if !present {
            members.push(client);
        }
        self.rooms.set(i, Room { name, members });
        assert(self@ =~= before.update(
            i as int,
            RoomView { name: before[i as int].name, members: with_member(before[i as int].members, client) },
        ));
    }

    fn fan_out_message(
        &self,
        i: usize,
        client: u128,
        room: &String,
        from: &String,
        text: &String,
    ) -> (deliveries: Vec<Delivery>)
        requires
            i < self@.len(),
        ensures
            deliveries@.map_values(|d: Delivery| d@) == fan_out(
                self@[i as int].members,
                client,
                ServerMessageView::Message { room: room@, from: from@, text: text@ },
            ),
    {
        let ghost message = ServerMessageView::Message { room: room@, from: from@, text: text@ };
        let ghost f = copy_for(client, message);
        assert(self@[i as int] == self.rooms@[i as int]@);
        let n = self.rooms[i].members.len();
        let mut out: Vec<Delivery> = Vec::new();
        let mut j: usize = 0;
        while j < n
            invariant
                n == self.rooms@[i as int].members@.len(),
                i < self.rooms@.len(),
                j <= n,
                message == (ServerMessageView::Message { room: room@, from: from@, text: text@ }),
                f == copy_for(client, message),
                out@.map_values(|d: Delivery| d@) == self.rooms@[i as int].members@.take(
                    j as int,
                ).filter_map(f),
            decreases n - j,
        {
            let m = self.rooms[i].members[j];
            proof {
                self.rooms@[i as int].members@.lemma_filter_map_take_succ(f, j as int);
            }
            if m != client {
                let d = Delivery {
                    to: m,
                    message: ServerMessage::Message {
                        room: room.clone(),
                        from: from.clone(),
                        text: text.clone(),
                    },
                };
                assert(d@ == (m, message));
                assert(f(m) == Some((m, message)));
                let ghost prev = out@;
                out.push(d);
                assert(out@ =~= prev.push(d));
                assert(out@.map_values(|d: Delivery| d@) =~= prev.map_values(|d: Delivery| d@).push(
                    (m, message),
                ));
            } else {
                assert(f(m) == None::<(u128, ServerMessageView)>);
            }
            j = j + 1;
        }
        assert(self.rooms@[i as int].members@.take(n as int) =~= self.rooms@[i as int].members@);
        out
    }

    fn handle(&mut self, client: u128, request: Option<ClientCommand>) -> (reply: Reply)
        ensures
            (final(self)@, reply@) == step(old(self)@, client, request_view(request)),
    {
        match request {
            None => single(
                client,
                ServerMessage::Error { msg: "invalid command: {}".to_owned() },
                false,
            ),
            Some(ClientCommand::CreateRoom { room }) => {
                match self.find_room(room.as_str()) {
                    Some(_) => {
                        let msg = concat3("Room: ", room.as_str(), " already exist");
                        single(client, ServerMessage::Error { msg }, true)
                    },
                    None => {
                        let ghost before = self@;
                        self.rooms.push(Room { name: room.clone(), members: Vec::new() });
                        assert(self@ =~= before.push(
                            RoomView { name: room@, members: Seq::<u128>::empty() },
                        ));
                        single(client, ServerMessage::Created { room }, false)
                    },
                }
            },
            Some(ClientCommand::JoinRoom { room }) => {
                match self.find_room(room.as_str()) {
                    Some(i) => {
                        self.add_member(i, client);
                        single(client, ServerMessage::Joined { room }, false)
                    },
                    None => {
                        let msg = concat3("Room: ", trim(room.as_str()), " does not exist");
                        single(client, ServerMessage::Error { msg }, true)
                    },
                }
            },
            Some(ClientCommand::Message { room, text, from }) => {
                match self.find_room(room.as_str()) {
                    Some(i) => {
                        let deliveries = self.fan_out_message(i, client, &room, &from, &text);
                        Reply { deliveries, close: false }
                    },
                    None => {
                        let msg = concat3("room ", room.as_str(), " does not exist");
                        single(client, ServerMessage::Error { msg }, false)
                    },
                }
            },
        }
    }
}

impl ServerState {
    #[verifier::type_invariant]
    spec fn inv(self) -> bool {
        well_formed(self.rooms@)
    }

    /// A server that has just started: one room, `lobby`, with no members.
    pub fn new() -> (state: ServerState)
        ensures
            state@ == seq![RoomView { name: "lobby"@, members: Seq::<u128>::empty() }],
            well_formed(state@),
    {
        let rooms = RoomList::new();
        proof {
            start_is_well_formed();
        }
        ServerState { rooms }
    }

    /// Whether `client` is a member of some room.
    pub fn is_member(&self, client: u128) -> (b: bool)
        ensures
            b == exists|i: int| 0 <= i < self@.len() && (#[trigger] self@[i]).members.contains(client),
    {
        let b = self.rooms.is_member(client);
        proof {
            if b {
                let i = choose|i: int|
                    0 <= i < self.rooms@.len() && (#[trigger] self.rooms@[i]).members.contains(client);
                assert(self@[i].members.contains(client));
            }
        }
        b
    }

    /// Carries out the request of `client` (`None` for a line that did not
    /// decode) and returns the messages to hand out. The server is well
    /// formed before and after.
    pub fn handle(&mut self, client: u128, request: Option<ClientCommand>) -> (reply: Reply)
        ensures
            (final(self)@, reply@) == step(old(self)@, client, request_view(request)),
            well_formed(old(self)@),
            well_formed(final(self)@),
    {
        proof {
            use_type_invariant(&*self);
        }
        let ghost before = self@;
        let ghost view_request = request_view(request);
        let mut rooms = RoomList { rooms: Vec::new() };
        std::mem::swap(&mut rooms, &mut self.rooms);
        let reply = rooms.handle(client, request);
        proof {
            step_keeps_well_formed(before, client, view_request);
        }
        self.rooms = rooms;
        reply
    }
}

} // verus!

//! Properties of the server's rules that hold for every state and request.

use vstd::prelude::*;

use crate::text::trimmed;
use crate::server::{
    copy_for, fan_out, has_room, index_from, lemma_index_from_skip, room_index, step,
    with_member, ClientCommandView, RoomView, ServerMessageView,
};

verus! {

/// A state the server can be in: no two rooms share a name, and nobody is
/// listed twice as a member of one room.
pub open spec fn well_formed(rooms: Seq<RoomView>) -> bool {
    &&& forall|i: int, j: int|
        0 <= i < j < rooms.len() ==> #[trigger] rooms[i].name != #[trigger] rooms[j].name
    &&& forall|i: int| 0 <= i < rooms.len() ==> (#[trigger] rooms[i]).members.no_duplicates()
}

/// Every room of `before` is still in `after`, at the same place and under the
/// same name, and keeps every member it had.
pub open spec fn rooms_kept(before: Seq<RoomView>, after: Seq<RoomView>) -> bool {
    &&& before.len() <= after.len()
    &&& forall|i: int|
        0 <= i < before.len() ==> {
            &&& (#[trigger] after[i]).name == before[i].name
            &&& forall|m: u128| before[i].members.contains(m) ==> after[i].members.contains(m)
        }
}

proof fn lemma_index_from(rooms: Seq<RoomView>, name: Seq<char>, k: nat)
    requires
        k <= rooms.len(),
    ensures
        k <= index_from(rooms, name, k) <= rooms.len(),
        index_from(rooms, name, k) < rooms.len() ==> rooms[index_from(rooms, name, k) as int].name
            == name,
        forall|j: int| k <= j < index_from(rooms, name, k) ==> #[trigger] rooms[j].name != name,
    decreases rooms.len() - k,
{
    if k < rooms.len() && rooms[k as int].name != name {
        lemma_index_from(rooms, name, k + 1);
    }
}

/// The room that a name finds carries that name, and a name that finds no
/// room names none of them.
pub proof fn room_lookup(rooms: Seq<RoomView>, name: Seq<char>)
    ensures
        has_room(rooms, name) ==> rooms[room_index(rooms, name) as int].name == name,
        !has_room(rooms, name) ==> forall|j: int| 0 <= j < rooms.len() ==> #[trigger] rooms[j].name != name,
        has_room(rooms, name) <==> exists|j: int| 0 <= j < rooms.len() && #[trigger] rooms[j].name == name,
{
    lemma_index_from(rooms, name, 0);
    if has_room(rooms, name) {
        let j = room_index(rooms, name) as int;
        assert(rooms[j].name == name);
    }
}

proof fn lemma_with_member(members: Seq<u128>, client: u128)
    ensures
        with_member(members, client).contains(client),
        forall|m: u128| members.contains(m) ==> with_member(members, client).contains(m),
        forall|m: u128| #[trigger] with_member(members, client).contains(m) ==> members.contains(m) || m == client,
        members.no_duplicates() ==> with_member(members, client).no_duplicates(),
{
    let after = with_member(members, client);
    if !members.contains(client) {
        assert(after[members.len() as int] == client);
        assert forall|m: u128| members.contains(m) implies after.contains(m) by {
            let k = choose|k: int| 0 <= k < members.len() && members[k] == m;
            assert(after[k] == m);
        }
        assert forall|m: u128| #[trigger] after.contains(m) implies members.contains(m) || m == client by {
            let k = choose|k: int| 0 <= k < after.len() && after[k] == m;
            if k < members.len() {
                assert(members[k] == m);
            }
        }
    }
}

/// The server starts well formed.
pub proof fn start_is_well_formed()
    ensures
        well_formed(seq![RoomView { name: "lobby"@, members: Seq::<u128>::empty() }]),
{
    let rooms = seq![RoomView { name: "lobby"@, members: Seq::<u128>::empty() }];
    assert(rooms[0].members.no_duplicates());
}

/// A refused request changes no room. Creating a room whose name is taken,
/// or joining one that does not exist, is answered with an error and closes
/// the requesting connection; a message to a room that does not exist is
/// answered with an error and leaves the connection open.
pub proof fn refusals_change_nothing(
    rooms: Seq<RoomView>,
    client: u128,
    room: Seq<char>,
    text: Seq<char>,
    from: Seq<char>,
)
    ensures
        has_room(rooms, room) ==> {
            let (after, reply) = step(rooms, client, Some(ClientCommandView::CreateRoom { room }));
            &&& after == rooms
            &&& reply.close
            &&& reply.deliveries == seq![
                (client, ServerMessageView::Error { msg: "Room: "@ + room + " already exist"@ }),
            ]
        },
        !has_room(rooms, room) ==> {
            let (after, reply) = step(rooms, client, Some(ClientCommandView::JoinRoom { room }));
            &&& after == rooms
            &&& reply.close
            &&& reply.deliveries == seq![
                (
                    client,
                    ServerMessageView::Error { msg: "Room: "@ + trimmed(room) + " does not exist"@ },
                ),
            ]
        },
        !has_room(rooms, room) ==> {
            let (after, reply) = step(
                rooms,
                client,
                Some(ClientCommandView::Message { room, text, from }),
            );
            &&& after == rooms
            &&& !reply.close
            &&& reply.deliveries == seq![
                (client, ServerMessageView::Error { msg: "room "@ + room + " does not exist"@ }),
            ]
        },
        ({
            let (after, reply) = step(rooms, client, None);
            &&& after == rooms
            &&& !reply.close
            &&& reply.deliveries == seq![
                (client, ServerMessageView::Error { msg: "invalid command: {}"@ }),
            ]
        }),
{
}

/// Creating a room under a name that no room has succeeds: the room is
/// added after all the others, with no members, every room there was stays
/// as it was, the requester alone is told that it was created, and its
/// connection stays open for its next requests.
pub proof fn create_fresh_room(rooms: Seq<RoomView>, client: u128, room: Seq<char>)
    requires
        !has_room(rooms, room),
    ensures
        ({
            let (after, reply) = step(rooms, client, Some(ClientCommandView::CreateRoom { room }));
            &&& !reply.close
            &&& reply.deliveries.len() == 1
            &&& reply.deliveries[0] == (client, ServerMessageView::Created { room })
            &&& after.len() == rooms.len() + 1
            &&& forall|i: int| 0 <= i < rooms.len() ==> #[trigger] after[i] == rooms[i]
            &&& after[rooms.len() as int].name == room
            &&& after[rooms.len() as int].members.len() == 0
            &&& has_room(after, room)
            &&& room_index(after, room) == rooms.len()
        }),
{
    let after = step(rooms, client, Some(ClientCommandView::CreateRoom { room })).0;
    room_lookup(rooms, room);
    lemma_index_from(after, room, 0);
    assert forall|j: int| 0 <= j < rooms.len() implies #[trigger] after[j].name != room by {
        assert(after[j] == rooms[j]);
    }
    lemma_index_from_skip(after, room, 0, rooms.len());
}

/// Every request leaves the server well formed.
pub proof fn step_keeps_well_formed(
    rooms: Seq<RoomView>,
    client: u128,
    request: Option<ClientCommandView>,
)
    requires
        well_formed(rooms),
    ensures
        well_formed(step(rooms, client, request).0),
{
    let after = step(rooms, client, request).0;
    match request {
        Some(ClientCommandView::CreateRoom { room }) => {
            room_lookup(rooms, room);
            if !has_room(rooms, room) {
                assert forall|i: int, j: int|
                    0 <= i < j < after.len() implies #[trigger] after[i].name != #[trigger] after[j].name by {
                    if j == rooms.len() {
                        assert(rooms[i].name != room);
                    } else {
                        assert(rooms[i].name != rooms[j].name);
                    }
                }
                assert forall|i: int| 0 <= i < after.len() implies (#[trigger] after[i]).members.no_duplicates() by {
                    if i < rooms.len() {
                        assert(after[i] == rooms[i]);
                    }
                }
            }
        },
        Some(ClientCommandView::JoinRoom { room }) => {
            room_lookup(rooms, room);
            if has_room(rooms, room) {
                let k = room_index(rooms, room) as int;
                lemma_with_member(rooms[k].members, client);
                assert forall|i: int, j: int|
                    0 <= i < j < after.len() implies #[trigger] after[i].name != #[trigger] after[j].name by {
                    assert(rooms[i].name != rooms[j].name);
                }
                assert forall|i: int| 0 <= i < after.len() implies (#[trigger] after[i]).members.no_duplicates() by {
                    if i != k {
                        assert(after[i] == rooms[i]);
                    }
                }
            }
        },
        _ => {},
    }
}

/// No request removes a room, renames one, or drops a member from one: the
/// `lobby` the server starts with, and every room created later, stay.
pub proof fn step_keeps_rooms(rooms: Seq<RoomView>, client: u128, request: Option<ClientCommandView>)
    ensures
        rooms_kept(rooms, step(rooms, client, request).0),
{
    let after = step(rooms, client, request).0;
    match request {
        Some(ClientCommandView::JoinRoom { room }) => {
            if has_room(rooms, room) {
                let k = room_index(rooms, room) as int;
                lemma_with_member(rooms[k].members, client);
                room_lookup(rooms, room);
            }
        },
        Some(ClientCommandView::CreateRoom { room }) => {
            if !has_room(rooms, room) {
                assert forall|i: int| 0 <= i < rooms.len() implies (#[trigger] after[i]).name
                    == rooms[i].name && forall|m: u128|
                    rooms[i].members.contains(m) ==> after[i].members.contains(m) by {
                    assert(after[i] == rooms[i]);
                }
            }
        },
        _ => {},
    }
}

proof fn lemma_fan_out(members: Seq<u128>, client: u128, message: ServerMessageView)
    ensures
        forall|k: int|
            0 <= k < fan_out(members, client, message).len() ==> {
                &&& (#[trigger] fan_out(members, client, message)[k]).0 != client
                &&& members.contains(fan_out(members, client, message)[k].0)
                &&& fan_out(members, client, message)[k].1 == message
            },
        forall|m: u128|
            #[trigger] members.contains(m) && m != client ==> exists|k: int|
                0 <= k < fan_out(members, client, message).len() && #[trigger] fan_out(
                    members,
                    client,
                    message,
                )[k].0 == m,
        members.no_duplicates() ==> forall|k1: int, k2: int|
            0 <= k1 < k2 < fan_out(members, client, message).len() ==> #[trigger] fan_out(
                members,
                client,
                message,
            )[k1].0 != #[trigger] fan_out(members, client, message)[k2].0,
    decreases members.len(),
{
    let out = fan_out(members, client, message);
    if members.len() > 0 {
        let rest = members.drop_last();
        let last = members.last();
        let out_rest = fan_out(rest, client, message);
        lemma_fan_out(rest, client, message);
        assert(out == rest.filter_map(copy_for(client, message)) + (match copy_for(client, message)(
            last,
        ) {
            Some(s) => seq![s],
            None => Seq::empty(),
        }));
        assert forall|k: int| 0 <= k < out.len() implies {
            &&& (#[trigger] out[k]).0 != client
            &&& members.contains(out[k].0)
            &&& out[k].1 == message
        } by {
            if k < out_rest.len() {
                assert(out[k] == out_rest[k]);
                let t = out_rest[k].0;
                let q = choose|q: int| 0 <= q < rest.len() && rest[q] == t;
                assert(members[q] == t);
            } else {
                assert(members[members.len() - 1] == last);
            }
        }
        assert forall|m: u128| #[trigger] members.contains(m) && m != client implies exists|k: int|
            0 <= k < out.len() && #[trigger] out[k].0 == m by {
            let q = choose|q: int| 0 <= q < members.len() && members[q] == m;
            if q < rest.len() {
                assert(rest[q] == m);
                assert(rest.contains(m));
                let k = choose|k: int| 0 <= k < out_rest.len() && #[trigger] out_rest[k].0 == m;
                assert(out[k] == out_rest[k]);
            } else {
                assert(out[out.len() - 1].0 == m);
            }
        }
        if members.no_duplicates() {
            assert(rest.no_duplicates());
            assert forall|k1: int, k2: int| 0 <= k1 < k2 < out.len() implies #[trigger] out[k1].0
                != #[trigger] out[k2].0 by {
                if k2 < out_rest.len() {
                    assert(out[k1] == out_rest[k1]);
                    assert(out[k2] == out_rest[k2]);
                } else {
                    assert(out[k1] == out_rest[k1]);
                    let t = out_rest[k1].0;
                    let q = choose|q: int| 0 <= q < rest.len() && rest[q] == t;
                    assert(members[q] == t);
                    assert(out[k2].0 == last);
                    assert(members[members.len() - 1] == last);
                }
            }
        }
    }
}

/// A chat message sent to an existing room goes to every member of the room
/// other than its sender, exactly once each when the rooms are well formed
/// (as those of every `ServerState` are, by its type invariant),
/// with its room, sender name and text unchanged, and to nobody else; the
/// rooms stay as they were, and the sender's connection stays open.
pub proof fn message_reaches_other_members(
    rooms: Seq<RoomView>,
    client: u128,
    room: Seq<char>,
    text: Seq<char>,
    from: Seq<char>,
)
    requires
        has_room(rooms, room),
    ensures
        ({
            let (after, reply) = step(
                rooms,
                client,
                Some(ClientCommandView::Message { room, text, from }),
            );
            let members = rooms[room_index(rooms, room) as int].members;
            &&& after == rooms
            &&& !reply.close
            &&& forall|k: int|
                0 <= k < reply.deliveries.len() ==> {
                    &&& (#[trigger] reply.deliveries[k]).0 != client
                    &&& members.contains(reply.deliveries[k].0)
                    &&& reply.deliveries[k].1 == (ServerMessageView::Message { room, from, text })
                }
            &&& forall|m: u128|
                #[trigger] members.contains(m) && m != client ==> exists|k: int|
                    0 <= k < reply.deliveries.len() && #[trigger] reply.deliveries[k].0 == m
            &&& well_formed(rooms) ==> forall|k1: int, k2: int|
                0 <= k1 < k2 < reply.deliveries.len() ==> #[trigger] reply.deliveries[k1].0
                    != #[trigger] reply.deliveries[k2].0
        }),
{
    let members = rooms[room_index(rooms, room) as int].members;
    lemma_fan_out(members, client, ServerMessageView::Message { room, from, text });
}

/// A client that joins an existing room becomes one of its members, and is
/// answered that it joined.
pub proof fn join_makes_member(rooms: Seq<RoomView>, client: u128, room: Seq<char>)
    requires
        has_room(rooms, room),
    ensures
        ({
            let (after, reply) = step(rooms, client, Some(ClientCommandView::JoinRoom { room }));
            &&& has_room(after, room)
            &&& room_index(after, room) == room_index(rooms, room)
            &&& after[room_index(after, room) as int].members.contains(client)
            &&& reply.deliveries == seq![(client, ServerMessageView::Joined { room })]
            &&& !reply.close
        }),
{
    let (after, reply) = step(rooms, client, Some(ClientCommandView::JoinRoom { room }));
    let k = room_index(rooms, room) as int;
    lemma_with_member(rooms[k].members, client);
    lemma_index_from(rooms, room, 0);
    lemma_index_from(after, room, 0);
    lemma_index_from_same(rooms, after, room, 0);
}

proof fn lemma_index_from_same(a: Seq<RoomView>, b: Seq<RoomView>, name: Seq<char>, k: nat)
    requires
        a.len() == b.len(),
        forall|i: int| 0 <= i < a.len() ==> #[trigger] a[i].name == b[i].name,
        k <= a.len(),
    ensures
        index_from(a, name, k) == index_from(b, name, k),
    decreases a.len() - k,
{
    if k < a.len() {
        lemma_index_from_same(a, b, name, k + 1);
    }
}

/// The chat flow from a fresh room name: once `a` has created the room and
/// both `a` and `b` have joined it, a message that `a` sends there reaches
/// `b`, and only `b`.
pub proof fn create_join_send(
    rooms: Seq<RoomView>,
    a: u128,
    b: u128,
    room: Seq<char>,
    text: Seq<char>,
    from: Seq<char>,
)
    requires
        !has_room(rooms, room),
        a != b,
    ensures
        ({
            let (s1, r1) = step(rooms, a, Some(ClientCommandView::CreateRoom { room }));
            let (s2, r2) = step(s1, a, Some(ClientCommandView::JoinRoom { room }));
            let (s3, r3) = step(s2, b, Some(ClientCommandView::JoinRoom { room }));
            let (s4, r4) = step(s3, a, Some(ClientCommandView::Message { room, text, from }));
            &&& r1.deliveries == seq![(a, ServerMessageView::Created { room })]
            &&& r2.deliveries == seq![(a, ServerMessageView::Joined { room })]
            &&& r3.deliveries == seq![(b, ServerMessageView::Joined { room })]
            &&& r4.deliveries == seq![(b, ServerMessageView::Message { room, from, text })]
            &&& s4 == s3
        }),
{
    let n = rooms.len();
    let s1 = step(rooms, a, Some(ClientCommandView::CreateRoom { room })).0;
    room_lookup(rooms, room);
    assert(s1[n as int].name == room);
    lemma_index_from(s1, room, 0);
    lemma_index_from_skip(s1, room, 0, n);
    assert(room_index(s1, room) == n);
    let s2 = step(s1, a, Some(ClientCommandView::JoinRoom { room })).0;
    assert(s2[n as int].members =~= seq![a]);
    lemma_index_from_same(s1, s2, room, 0);
    let s3 = step(s2, b, Some(ClientCommandView::JoinRoom { room })).0;
    assert(seq![a][0] == a);
    assert(!seq![a].contains(b));
    assert(s3[n as int].members =~= seq![a, b]);
    lemma_index_from_same(s2, s3, room, 0);
    let message = ServerMessageView::Message { room, from, text };
    reveal_with_fuel(Seq::filter_map, 3);
    assert(seq![a, b].drop_last() =~= seq![a]);
    assert(seq![a].drop_last() =~= Seq::<u128>::empty());
    assert(fan_out(seq![a, b], a, message) =~= seq![(b, message)]);
}

/// The rooms after the server has carried out `requests` in order, each
/// a requesting connection and its request.
pub open spec fn after_requests(
    rooms: Seq<RoomView>,
    requests: Seq<(u128, Option<ClientCommandView>)>,
) -> Seq<RoomView>
    decreases requests.len(),
{
    if requests.len() == 0 {
        rooms
    } else {
        after_requests(step(rooms, requests[0].0, requests[0].1).0, requests.drop_first())
    }
}

/// However many requests the server carries out, no room is removed or
/// renamed and no member leaves a room.
pub proof fn rooms_kept_over_requests(
    rooms: Seq<RoomView>,
    requests: Seq<(u128, Option<ClientCommandView>)>,
)
    ensures
        rooms_kept(rooms, after_requests(rooms, requests)),
    decreases requests.len(),
{
    if requests.len() > 0 {
        let next = step(rooms, requests[0].0, requests[0].1).0;
        step_keeps_rooms(rooms, requests[0].0, requests[0].1);
        rooms_kept_over_requests(next, requests.drop_first());
        let last = after_requests(rooms, requests);
        assert forall|i: int| 0 <= i < rooms.len() implies {
            &&& (#[trigger] last[i]).name == rooms[i].name
            &&& forall|m: u128| rooms[i].members.contains(m) ==> last[i].members.contains(m)
        } by {
            assert(next[i].name == rooms[i].name);
            assert(last[i].name == next[i].name);
            assert forall|m: u128| rooms[i].members.contains(m) implies last[i].members.contains(m) by {
                assert(next[i].members.contains(m));
            }
        }
    }
}

proof fn lemma_room_index_kept(before: Seq<RoomView>, after: Seq<RoomView>, name: Seq<char>)
    requires
        rooms_kept(before, after),
        has_room(before, name),
    ensures
        has_room(after, name),
        room_index(after, name) == room_index(before, name),
{
    let k = room_index(before, name);
    lemma_index_from(before, name, 0);
    assert forall|j: int| 0 <= j < k implies #[trigger] after[j].name != name by {
        assert(after[j].name == before[j].name);
        assert(before[j].name != name);
    }
    lemma_index_from_skip(after, name, 0, k);
    assert(after[k as int].name == before[k as int].name);
}

/// A client that has joined a room receives every message that another
/// client later sends to that room, whatever the server did in between.
pub proof fn joined_member_receives_later_messages(
    rooms: Seq<RoomView>,
    b: u128,
    room: Seq<char>,
    requests: Seq<(u128, Option<ClientCommandView>)>,
    a: u128,
    text: Seq<char>,
    from: Seq<char>,
)
    requires
        has_room(rooms, room),
        a != b,
    ensures
        ({
            let joined = step(rooms, b, Some(ClientCommandView::JoinRoom { room })).0;
            let later = after_requests(joined, requests);
            let reply = step(later, a, Some(ClientCommandView::Message { room, text, from })).1;
            exists|k: int|
                0 <= k < reply.deliveries.len() && #[trigger] reply.deliveries[k] == (
                    b,
                    ServerMessageView::Message { room, from, text },
                )
        }),
{
    let joined = step(rooms, b, Some(ClientCommandView::JoinRoom { room })).0;
    let later = after_requests(joined, requests);
    join_makes_member(rooms, b, room);
    rooms_kept_over_requests(joined, requests);
    lemma_room_index_kept(joined, later, room);
    let i = room_index(later, room) as int;
    assert(later[i].members.contains(b));
    message_reaches_other_members(later, a, room, text, from);
    let reply = step(later, a, Some(ClientCommandView::Message { room, text, from })).1;
    let k = choose|k: int| 0 <= k < reply.deliveries.len() && #[trigger] reply.deliveries[k].0 == b;
    assert(reply.deliveries[k] == (b, ServerMessageView::Message { room, from, text }));
}

} // verus!


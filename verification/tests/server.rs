use termchat::server::{new_connection_id, ClientCommand, Reply, ServerMessage, ServerState};

fn describe(reply: &Reply) -> Vec<(u128, String)> {
    reply
        .deliveries
        .iter()
        .map(|d| {
            let m = match &d.message {
                ServerMessage::Joined { room } => format!("Joined {room}"),
                ServerMessage::Message { room, from, text } => format!("Message {room} {from} {text}"),
                ServerMessage::Error { msg } => format!("Error {msg}"),
                ServerMessage::Created { room } => format!("Created {room}"),
            };
            (d.to, m)
        })
        .collect()
}

fn create(room: &str) -> Option<ClientCommand> {
    Some(ClientCommand::CreateRoom { room: room.to_string() })
}

fn join(room: &str) -> Option<ClientCommand> {
    Some(ClientCommand::JoinRoom { room: room.to_string() })
}

fn message(room: &str, from: &str, text: &str) -> Option<ClientCommand> {
    Some(ClientCommand::Message { room: room.to_string(), text: text.to_string(), from: from.to_string() })
}

#[test]
fn test_create_after_connect_successfully() {
    let mut state = ServerState::new();
    let reply = state.handle(1, create("Room42"));
    assert!(!reply.close);
    assert_eq!(describe(&reply), vec![(1, "Created Room42".to_string())]);
}

#[test]
fn fails_when_room_doesnt_exist() {
    let mut state = ServerState::new();
    let reply = state.handle(1, join("Room7"));
    assert!(reply.close);
    let d = describe(&reply);
    assert_eq!(d.len(), 1);
    assert_eq!(d[0].0, 1);
    assert!(d[0].1.contains("does not exist"));
    assert_eq!(d[0].1, "Error Room: Room7 does not exist");
}

#[test]
fn successfully_sends_and_receive_msgs() {
    let mut state = ServerState::new();
    let (user1, user2) = (11u128, 22u128);
    state.handle(user1, create("Room9"));
    state.handle(user1, join("Room9"));
    let joined = state.handle(user2, join("Room9"));
    assert_eq!(describe(&joined), vec![(user2, "Joined Room9".to_string())]);
    let sent = state.handle(user1, message("Room9", "User1", "Hey User2!"));
    assert!(!sent.close);
    assert_eq!(describe(&sent), vec![(user2, "Message Room9 User1 Hey User2!".to_string())]);
}

#[test]
fn lobby_exists_from_the_start() {
    let mut state = ServerState::new();
    let reply = state.handle(3, join("lobby"));
    assert_eq!(describe(&reply), vec![(3, "Joined lobby".to_string())]);
}

#[test]
fn creating_an_existing_room_is_refused_and_closes() {
    let mut state = ServerState::new();
    let reply = state.handle(4, create("lobby"));
    assert!(reply.close);
    assert_eq!(describe(&reply), vec![(4, "Error Room: lobby already exist".to_string())]);
}

#[test]
fn unknown_room_in_join_error_is_trimmed() {
    let mut state = ServerState::new();
    let reply = state.handle(4, join("  nowhere\n"));
    assert_eq!(describe(&reply), vec![(4, "Error Room: nowhere does not exist".to_string())]);
}

#[test]
fn message_to_missing_room_keeps_connection() {
    let mut state = ServerState::new();
    let reply = state.handle(5, message("attic", "me", "hi"));
    assert!(!reply.close);
    assert_eq!(describe(&reply), vec![(5, "Error room attic does not exist".to_string())]);
}

#[test]
fn undecodable_line_is_answered() {
    let mut state = ServerState::new();
    let reply = state.handle(6, None);
    assert!(!reply.close);
    assert_eq!(describe(&reply), vec![(6, "Error invalid command: {}".to_string())]);
}

#[test]
fn members_get_one_copy_and_sender_none() {
    let mut state = ServerState::new();
    for id in [1u128, 2, 3, 2, 1] {
        state.handle(id, join("lobby"));
    }
    let reply = state.handle(2, message("lobby", "two", "hello"));
    assert_eq!(
        describe(&reply),
        vec![(1, "Message lobby two hello".to_string()), (3, "Message lobby two hello".to_string())]
    );
    let reply = state.handle(9, message("lobby", "outsider", "hi"));
    assert_eq!(reply.deliveries.len(), 3);
}

#[test]
fn connection_ids_are_version_4_uuids() {
    let a = new_connection_id();
    let b = new_connection_id();
    for id in [a, b] {
        assert_eq!((id >> 76) & 0xf, 4);
        assert_eq!((id >> 62) & 0x3, 2);
    }
    assert_ne!(a, b);
}

#[test]
fn joined_member_keeps_receiving_after_other_requests() {
    let mut state = ServerState::new();
    state.handle(2, join("lobby"));
    state.handle(3, create("den"));
    state.handle(3, create("lobby"));
    state.handle(2, join("den"));
    state.handle(4, None);
    let reply = state.handle(5, message("lobby", "five", "still there?"));
    assert_eq!(describe(&reply), vec![(2, "Message lobby five still there?".to_string())]);
    assert!(state.is_member(2));
    assert!(!state.is_member(3));
}

#[test]
fn join_twice_keeps_one_membership() {
    let mut state = ServerState::new();
    state.handle(1, join("lobby"));
    let again = state.handle(1, join("lobby"));
    assert_eq!(describe(&again), vec![(1, "Joined lobby".to_string())]);
    let reply = state.handle(7, message("lobby", "x", "y"));
    assert_eq!(reply.deliveries.len(), 1);
}

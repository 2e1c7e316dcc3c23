use termchat::communication::{Action, Communication, Line, Outgoing};
use termchat::errors::{CreateErrors, OnboardErrors};
use termchat::messages::Messages;

#[test]
fn test_build() {
    let test_user = "Test user".to_string();
    let com = Communication::build(test_user.clone());

    assert_eq!(com.user_name, test_user);
    assert_eq!(com.joined_room, None);
}

#[test]
fn prompt_shows_user_name() {
    let com = Communication::build("ana".to_string());
    assert_eq!(com.prompt(), "┌─[ana]─]\n└─▶ ");
}

#[test]
fn unreachable_server_ends_loop_before_command_is_read() {
    let mut com = Communication::build("ana".to_string());
    let r = com.handle_input("/set_user bob\n", false);
    match r {
        Err(e) => assert_eq!(e.describe(), "Server Error: Couldn't connect to the server"),
        Ok(_) => panic!("expected an error"),
    }
    assert_eq!(com.user_name, "ana");
}

#[test]
fn create_command_takes_rest_of_line() {
    let mut com = Communication::build("ana".to_string());
    match com.handle_input("/create lodge\n", true) {
        Ok(Action::Create { room }) => assert_eq!(room, "lodge\n"),
        _ => panic!("expected create"),
    }
    assert_eq!(com.joined_room, None);
}

#[test]
fn join_command_takes_rest_of_line() {
    let mut com = Communication::build("ana".to_string());
    match com.handle_input("/join lodge hall\n", true) {
        Ok(Action::Join { room }) => assert_eq!(room, "lodge hall\n"),
        _ => panic!("expected join"),
    }
}

#[test]
fn help_quit_and_unknown_commands() {
    let mut com = Communication::build("ana".to_string());
    assert!(matches!(com.handle_input("/help\n", true), Ok(Action::Help)));
    assert!(matches!(com.handle_input("/quit  \n", true), Ok(Action::Quit)));
    assert!(matches!(com.handle_input("\t/quit\n", true), Ok(Action::Quit)));
    assert!(matches!(com.handle_input("  /quit\n", true), Ok(Action::Invalid)));
    assert!(matches!(com.handle_input("/list\n", true), Ok(Action::Invalid)));
    assert!(matches!(com.handle_input("hello there\n", true), Ok(Action::Invalid)));
    assert!(matches!(com.handle_input("/QUIT\n", true), Ok(Action::Invalid)));
}

#[test]
fn set_user_takes_the_trimmed_name() {
    let mut com = Communication::build("ana".to_string());
    assert!(matches!(com.handle_input("/set_user bob\n", true), Ok(Action::SetUser)));
    assert_eq!(com.user_name, "bob");
    assert!(matches!(com.handle_input("/quit\n", true), Ok(Action::Quit)));
    assert_eq!(com.user_name, "bob");
    assert_eq!(com.joined_room, None);
    assert!(matches!(com.handle_input("/set_user  Mary Ann \n", true), Ok(Action::SetUser)));
    assert_eq!(com.user_name, "Mary Ann");
    assert!(matches!(com.handle_input("/set_user\n", true), Ok(Action::SetUser)));
    assert_eq!(com.user_name, "");
}

#[test]
fn begin_join_records_room() {
    let mut com = Communication::build("ana".to_string());
    let notice = com.begin_join("lodge\n");
    assert_eq!(notice, "Joining room: lodge\n");
    assert_eq!(com.joined_room, Some("lodge\n".to_string()));
    assert_eq!(com.user_name, "ana");
}

#[test]
fn create_outcome_confirmed() {
    let r = Communication::create_outcome(Ok(Messages::Created { room: "lodge".to_string() }));
    match r {
        Ok(Some(t)) => assert_eq!(t, "Room Created: lodge. Join the room using /join lodge"),
        _ => panic!("expected a notice"),
    }
}

#[test]
fn create_outcome_refused_or_failed() {
    let r = Communication::create_outcome(Ok(Messages::Error {
        msg: "Room: lodge already exist".to_string(),
    }));
    assert!(matches!(r, Ok(None)));
    let r = Communication::create_outcome(Err(OnboardErrors::ReadError("Connection error")));
    match r {
        Err(CreateErrors::RoomNotCreated(s)) => assert_eq!(s, "Room already exists"),
        _ => panic!("expected an error"),
    }
}

fn texts(lines: &[Line]) -> Vec<String> {
    lines
        .iter()
        .map(|l| match l {
            Line::Right(s) => format!("R:{s}"),
            Line::Center(s) => format!("C:{s}"),
            Line::Prompt(s) => format!("P:{s}"),
        })
        .collect()
}

#[test]
fn incoming_chat_message() {
    let msg = Messages::Message { from: "User1".to_string(), text: "Hey User2!".to_string() };
    let out = Communication::incoming(&msg, "User2", "lodge");
    assert!(!out.stop);
    assert_eq!(texts(&out.lines), vec!["R:[User1]", "R:Hey User2!", "P:┌─[User2]─lodge"]);
}

#[test]
fn incoming_error_stops() {
    let msg = Messages::Error { msg: "Room: x does not exist".to_string() };
    let out = Communication::incoming(&msg, "u", "x");
    assert!(out.stop);
    assert_eq!(texts(&out.lines), vec!["C:Room: x does not exist"]);
}

#[test]
fn incoming_joined_and_created() {
    let out = Communication::incoming(&Messages::Joined { room: "a".to_string() }, "u", "a");
    assert!(!out.stop);
    assert_eq!(texts(&out.lines), vec!["C:Joined room: a"]);
    let out = Communication::incoming(&Messages::Created { room: "b".to_string() }, "u", "a");
    assert!(!out.stop);
    assert_eq!(texts(&out.lines), vec!["C:Created room: b"]);
}

#[test]
fn outgoing_end_of_input() {
    assert!(matches!(Communication::outgoing("", 0, "u", "r"), Outgoing::Closed));
}

#[test]
fn outgoing_leave_in_any_case() {
    assert!(matches!(Communication::outgoing("/leave\n", 7, "u", "r"), Outgoing::Leave));
    assert!(matches!(Communication::outgoing("  /LeAvE \n", 10, "u", "r"), Outgoing::Leave));
    assert!(!matches!(Communication::outgoing("/leaves\n", 8, "u", "r"), Outgoing::Leave));
}

#[test]
fn outgoing_chat_message() {
    match Communication::outgoing("  Hey User2! \n", 14, "User1", "lodge\n") {
        Outgoing::Send { request } => assert_eq!(
            request,
            "{\"from\":\"User1\",\"room\":\"lodge\",\"text\":\"Hey User2!\",\"type\":\"Message\"}\n"
        ),
        _ => panic!("expected a request"),
    }
}

#[test]
fn read_outcomes() {
    match Communication::check_read(None) {
        Err(OnboardErrors::ReadError(s)) => assert_eq!(s, "An unexpected error occured"),
        _ => panic!(),
    }
    match Communication::check_read(Some(0)) {
        Err(OnboardErrors::ReadError(s)) => assert_eq!(s, "Connection error"),
        _ => panic!(),
    }
    assert!(Communication::check_read(Some(12)).is_ok());
}

#[test]
fn send_outcomes() {
    match Communication::check_send(false, true) {
        Err(OnboardErrors::JoinErrors(s)) => assert_eq!(s, "Couldn't send message"),
        _ => panic!(),
    }
    match Communication::check_send(true, false) {
        Err(OnboardErrors::JoinErrors(s)) => assert_eq!(s, "Dev error"),
        _ => panic!(),
    }
    assert!(Communication::check_send(true, true).is_ok());
}

#[test]
fn user_name_defaults_to_guest() {
    assert_eq!(termchat::communication::default_user_name(None), "Guest");
    assert_eq!(termchat::communication::default_user_name(Some("ana".to_string())), "ana");
}

#[test]
fn room_prompt_text() {
    assert_eq!(termchat::communication::room_prompt("ana", "lodge\n"), "┌─[ana]─lodge\n");
}

#[test]
fn end_of_input_is_an_unknown_command() {
    let mut com = Communication::build("ana".to_string());
    for _ in 0..3 {
        assert!(matches!(com.handle_input("", true), Ok(Action::Invalid)));
    }
    assert_eq!(com.user_name, "ana");
}

use termchat::errors::{CreateErrors, JoinErrors, OnboardErrors, ServerConnectionError};

#[test]
fn descriptions() {
    assert_eq!(OnboardErrors::CreateErrors("a").describe(), "Create Error: a");
    assert_eq!(OnboardErrors::JoinErrors("b").describe(), "Join Error: b");
    assert_eq!(OnboardErrors::ServerError("c").describe(), "Server Error: c");
    assert_eq!(OnboardErrors::ReadError("d").describe(), "Read Error: d");
}

#[test]
fn conversions_keep_the_text() {
    match OnboardErrors::from(CreateErrors::RoomNotCreated("Room already exists")) {
        OnboardErrors::CreateErrors(s) => assert_eq!(s, "Room already exists"),
        _ => panic!(),
    }
    match OnboardErrors::from(JoinErrors::RoomNotJoined("no")) {
        OnboardErrors::JoinErrors(s) => assert_eq!(s, "no"),
        _ => panic!(),
    }
    match OnboardErrors::from(ServerConnectionError::CouldntConnectServer("down")) {
        OnboardErrors::CreateErrors(s) => assert_eq!(s, "down"),
        _ => panic!(),
    }
}

//! The errors of the terminal client.

use vstd::prelude::*;

use crate::text::concat2;

verus! {

/// What ends the client's command loop.
#[derive(Debug)]
pub enum OnboardErrors {
    CreateErrors(&'static str),
    JoinErrors(&'static str),
    ServerError(&'static str),
    ReadError(&'static str),
}

/// Why a room could not be created.
#[derive(Debug)]
pub enum CreateErrors {
    RoomNotCreated(&'static str),
}

/// Why a room could not be joined.
#[derive(Debug)]
pub enum JoinErrors {
    RoomNotJoined(&'static str),
}

/// Why the server could not be reached.
#[derive(Debug)]
pub enum ServerConnectionError {
    CouldntConnectServer(&'static str),
}

/// The text by which an error is shown to the user.
pub open spec fn description(e: OnboardErrors) -> Seq<char> {
    match e {
        OnboardErrors::CreateErrors(s) => "Create Error: "@ + s@,
        OnboardErrors::JoinErrors(s) => "Join Error: "@ + s@,
        OnboardErrors::ServerError(s) => "Server Error: "@ + s@,
        OnboardErrors::ReadError(s) => "Read Error: "@ + s@,
    }
}

impl OnboardErrors {
    /// The text by which the error is shown to the user, such as
    /// `Server Error: Couldn't connect to the server`.
    pub fn describe(&self) -> (text: String)
        ensures
            text@ == description(*self),
    {
        match self {
            OnboardErrors::CreateErrors(s) => concat2("Create Error: ", s),
            OnboardErrors::JoinErrors(s) => concat2("Join Error: ", s),
            OnboardErrors::ServerError(s) => concat2("Server Error: ", s),
            OnboardErrors::ReadError(s) => concat2("Read Error: ", s),
        }
    }
}

impl From<CreateErrors> for OnboardErrors {
    fn from(value: CreateErrors) -> (e: Self) {
        match value {
            CreateErrors::RoomNotCreated(s) => OnboardErrors::CreateErrors(s),
        }
    }
}

impl vstd::std_specs::convert::FromSpecImpl<CreateErrors> for OnboardErrors {
    open spec fn obeys_from_spec() -> bool {
        true
    }

    open spec fn from_spec(value: CreateErrors) -> Self {
        match value {
            CreateErrors::RoomNotCreated(s) => OnboardErrors::CreateErrors(s),
        }
    }
}

/// A failed connection is reported as a create error, with its text kept.
impl From<ServerConnectionError> for OnboardErrors {
    fn from(value: ServerConnectionError) -> (e: Self) {
        match value {
            ServerConnectionError::CouldntConnectServer(s) => OnboardErrors::CreateErrors(s),
        }
    }
}

impl vstd::std_specs::convert::FromSpecImpl<ServerConnectionError> for OnboardErrors {
    open spec fn obeys_from_spec() -> bool {
        true
    }

    open spec fn from_spec(value: ServerConnectionError) -> Self {
        match value {
            ServerConnectionError::CouldntConnectServer(s) => OnboardErrors::CreateErrors(s),
        }
    }
}

impl From<JoinErrors> for OnboardErrors {
    fn from(value: JoinErrors) -> (e: Self) {
        match value {
            JoinErrors::RoomNotJoined(s) => OnboardErrors::JoinErrors(s),
        }
    }
}

impl vstd::std_specs::convert::FromSpecImpl<JoinErrors> for OnboardErrors {
    open spec fn obeys_from_spec() -> bool {
        true
    }

    open spec fn from_spec(value: JoinErrors) -> Self {
        match value {
            JoinErrors::RoomNotJoined(s) => OnboardErrors::JoinErrors(s),
        }
    }
}

} // verus!

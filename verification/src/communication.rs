//! The terminal client's decisions: what a line typed at the command prompt
//! asks for, what the client shows for each message of the server, what it
//! sends for each line typed in a room, and how the outcomes of its reads and
//! writes are reported. Reading the keyboard, printing and the network stay at
//! the edge, which hands these functions what it read and carries out what
//! they return.

use vstd::prelude::*;

use crate::errors::{CreateErrors, OnboardErrors};
use crate::messages::Messages;
use crate::text::{
    first_space, trim_drops_line_end, concat2, concat3, eq_ignore_ascii_case, equal_ignoring_ascii_case, split_at_space,
    split_once_space, str_equal, trim, trimmed,
};
use crate::wire::{message_request, request_line};

verus! {

/// The state of the terminal client: the name it speaks under, and the room
/// it last went into.
pub struct Communication {
    pub user_name: String,
    pub joined_room: Option<String>,
}

/// What a line typed at the command prompt asks for.
pub enum Action {
    /// Create the room of this name.
    Create { room: String },
    /// Go into the room of this name.
    Join { room: String },
    /// Show the list of commands.
    Help,
    /// The user name was changed; nothing else is to be done.
    SetUser,
    /// Leave the application.
    Quit,
    /// The command is not known.
    Invalid,
}

/// What a typed line asks for, with the room's name as a character sequence.
pub enum ActionView {
    Create(Seq<char>),
    Join(Seq<char>),
    Help,
    SetUser,
    Quit,
    Invalid,
}

impl View for Action {
    type V = ActionView;

    open spec fn view(&self) -> ActionView {
        match self {
            Action::Create { room } => ActionView::Create(room@),
            Action::Join { room } => ActionView::Join(room@),
            Action::Help => ActionView::Help,
            Action::SetUser => ActionView::SetUser,
            Action::Quit => ActionView::Quit,
            Action::Invalid => ActionView::Invalid,
        }
    }
}

/// A line of output in a room.
pub enum Line {
    /// Shown flush right: what others wrote.
    Right(String),
    /// Shown centred: news from the server.
    Center(String),
    /// Printed as it is, without a line break: the input prompt.
    Prompt(String),
}

/// A line of output, with its text as a character sequence.
pub enum LineView {
    Right(Seq<char>),
    Center(Seq<char>),
    Prompt(Seq<char>),
}

impl View for Line {
    type V = LineView;

    open spec fn view(&self) -> LineView {
        match self {
            Line::Right(s) => LineView::Right(s@),
            Line::Center(s) => LineView::Center(s@),
            Line::Prompt(s) => LineView::Prompt(s@),
        }
    }
}

/// What the client does with a message of the server while in a room.
pub struct Incoming {
    pub lines: Vec<Line>,
    /// Whether the client stops listening to the room.
    pub stop: bool,
}

/// What the client does with a line typed in a room.
pub enum Outgoing {
    /// The keyboard input has ended.
    Closed,
    /// The user asked to leave the room.
    Leave,
    /// This request line is to be sent to the server.
    Send { request: String },
}

/// The command word of a typed line: what stands before its first space,
/// without surrounding white space.
pub open spec fn command_word(input: Seq<char>) -> Seq<char> {
    trimmed(split_at_space(input).0)
}

/// The argument of a typed line: all that follows its first space, as it is.
pub open spec fn command_argument(input: Seq<char>) -> Seq<char> {
    split_at_space(input).1
}

/// What the typed line `input` asks for, by its command word.
pub open spec fn action_of(input: Seq<char>) -> ActionView {
    let word = command_word(input);
    let arg = command_argument(input);
    if word == "/create"@ {
        ActionView::Create(arg)
    } else if word == "/join"@ {
        ActionView::Join(arg)
    } else if word == "/help"@ {
        ActionView::Help
    } else if word == "/set_user"@ {
        ActionView::SetUser
    } else if word == "/quit"@ {
        ActionView::Quit
    } else {
        ActionView::Invalid
    }
}

/// The command words are distinct, and none of them is empty.
proof fn lemma_command_words_differ()
    ensures
        "/create"@ != "/join"@,
        "/create"@ != "/help"@,
        "/create"@ != "/set_user"@,
        "/create"@ != "/quit"@,
        "/join"@ != "/help"@,
        "/join"@ != "/set_user"@,
        "/join"@ != "/quit"@,
        "/help"@ != "/set_user"@,
        "/help"@ != "/quit"@,
        "/set_user"@ != "/quit"@,
        "/create"@.len() > 0,
        "/join"@.len() > 0,
        "/help"@.len() > 0,
        "/set_user"@.len() > 0,
        "/quit"@.len() > 0,
{
    reveal_strlit("/create");
    reveal_strlit("/join");
    reveal_strlit("/help");
    reveal_strlit("/set_user");
    reveal_strlit("/quit");
    broadcast use vstd::string::group_string_axioms;

    assert("/create"@[1] != "/join"@[1]);
    assert("/create"@[1] != "/help"@[1]);
    assert("/create"@[1] != "/set_user"@[1]);
    assert("/create"@[1] != "/quit"@[1]);
    assert("/join"@[1] != "/help"@[1]);
    assert("/join"@[1] != "/set_user"@[1]);
    assert("/join"@[1] != "/quit"@[1]);
    assert("/help"@[1] != "/set_user"@[1]);
    assert("/help"@[1] != "/quit"@[1]);
    assert("/set_user"@[1] != "/quit"@[1]);
}

/// A typed line asks to quit exactly when its command word is `/quit`; an
/// empty line, which is what the keyboard gives once its input has ended,
/// is an unknown command.
pub proof fn quit_only_on_quit(input: Seq<char>)
    ensures
        (action_of(input) is Quit) <==> command_word(input) == "/quit"@,
        action_of(Seq::<char>::empty()) is Invalid,
{
    lemma_command_words_differ();
    let e = Seq::<char>::empty();
    assert(split_at_space(e).0 =~= e);
    assert(trimmed(e) =~= e);
}

proof fn lemma_first_space_append(s: Seq<char>, w: Seq<char>)
    requires
        forall|i: int| 0 <= i < w.len() ==> #[trigger] w[i] != ' ',
    ensures
        0 <= first_space(s) <= s.len(),
        first_space(s) < s.len() ==> first_space(s + w) == first_space(s),
        first_space(s) == s.len() ==> first_space(s + w) == s.len() + w.len(),
    decreases s.len() + w.len(),
{
    if s.len() == 0 {
        assert(s + w =~= w);
        if w.len() > 0 {
            assert(w[0] != ' ');
            lemma_first_space_append(s, w.drop_first());
            assert(w.drop_first() =~= s + w.drop_first());
        }
    } else {
        assert((s + w)[0] == s[0]);
        if s[0] != ' ' {
            assert((s + w).drop_first() =~= s.drop_first() + w);
            lemma_first_space_append(s.drop_first(), w);
        }
    }
}

/// A typed line asks for the same command whether it ends with `"\r\n"`,
/// as lines from some terminals do, or with `"\n"`; the line end stays with
/// the argument, which the command trims where it uses it as a name.
pub proof fn line_end_keeps_command(s: Seq<char>)
    ensures
        command_word(s + seq!['\r', '\n']) == command_word(s + seq!['\n']),
        command_word(s + seq!['\r', '\n']) == command_word(s),
        trimmed(command_argument(s + seq!['\r', '\n'])) == trimmed(command_argument(s)),
        (action_of(s + seq!['\r', '\n']) is Quit) <==> (action_of(s + seq!['\n']) is Quit),
{
    let crlf = seq!['\r', '\n'];
    let lf = seq!['\n'];
    assert(crlf[0] != ' ' && crlf[1] != ' ');
    assert(lf[0] != ' ');
    lemma_first_space_append(s, crlf);
    lemma_first_space_append(s, lf);
    trim_drops_line_end(s);
    let i = first_space(s);
    if i < s.len() {
        assert((s + crlf).take(i) =~= s.take(i));
        assert((s + lf).take(i) =~= s.take(i));
        assert((s + crlf).skip(i + 1) =~= s.skip(i + 1) + crlf);
        trim_drops_line_end(s.skip(i + 1));
    } else {
        assert(command_argument(s + crlf) =~= Seq::<char>::empty());
        assert(command_argument(s) =~= Seq::<char>::empty());
    }
    quit_only_on_quit(s + crlf);
    quit_only_on_quit(s + lf);
}

/// The index of the first of `lines` that asks to quit, or `lines.len()`
/// where none does.
pub open spec fn first_quit(lines: Seq<Seq<char>>) -> int
    decreases lines.len(),
{
    if lines.len() == 0 {
        0
    } else if action_of(lines[0]) is Quit {
        0
    } else {
        1 + first_quit(lines.drop_first())
    }
}

/// Fed `lines` with the server reachable, the command loop quits right
/// after the first line whose command word is `/quit` and after no other
/// line; where no line has that word (in particular where every line is
/// empty, as at the end of the input), it never quits.
pub proof fn command_loop_quits_only_on_quit(lines: Seq<Seq<char>>)
    ensures
        0 <= first_quit(lines) <= lines.len(),
        first_quit(lines) < lines.len() ==> command_word(lines[first_quit(lines)]) == "/quit"@,
        forall|j: int| 0 <= j < first_quit(lines) ==> command_word(#[trigger] lines[j]) != "/quit"@,
        (forall|j: int| 0 <= j < lines.len() ==> #[trigger] lines[j] == Seq::<char>::empty())
            ==> first_quit(lines) == lines.len(),
    decreases lines.len(),
{
    if lines.len() > 0 {
        let rest = lines.drop_first();
        command_loop_quits_only_on_quit(rest);
        quit_only_on_quit(lines[0]);
        assert forall|j: int| 0 <= j < first_quit(lines) implies command_word(#[trigger] lines[j])
            != "/quit"@ by {
            if j > 0 {
                assert(lines[j] == rest[j - 1]);
                quit_only_on_quit(rest[j - 1]);
            }
        }
        if first_quit(lines) < lines.len() && first_quit(lines) > 0 {
            assert(lines[first_quit(lines)] == rest[first_quit(rest)]);
        }
        if forall|j: int| 0 <= j < lines.len() ==> #[trigger] lines[j] == Seq::<char>::empty() {
            assert(lines[0] == Seq::<char>::empty());
            assert forall|j: int| 0 <= j < rest.len() implies #[trigger] rest[j] == Seq::<char>::empty() by {
                assert(rest[j] == lines[j + 1]);
            }
        }
    }
}

/// The prompt shown in a room.
pub open spec fn room_prompt_text(user_name: Seq<char>, room: Seq<char>) -> Seq<char> {
    "┌─["@ + user_name + "]─"@ + room
}

/// The prompt shown in a room: the user's name and the room's.
pub fn room_prompt(user_name: &str, room: &str) -> (p: String)
    ensures
        p@ == room_prompt_text(user_name@, room@),
{
    let mut p = concat3("┌─[", user_name, "]─");
    p.append(room);
    p
}

/// The name to speak under: the one given, or `Guest` where none is.
pub fn default_user_name(name: Option<String>) -> (user_name: String)
    ensures
        user_name@ == match name {
            Some(n) => n@,
            None => "Guest"@,
        },
{
    match name {
        Some(n) => n,
        None => "Guest".to_owned(),
    }
}

impl Communication {
    /// A client that speaks under `user_name` and is in no room.
    pub fn build(user_name: String) -> (c: Self)
        ensures
            c.user_name == user_name,
            c.joined_room is None,
    {
        Communication { user_name, joined_room: None }
    }

    /// The prompt of the command loop, which shows the user's name.
    pub fn prompt(&self) -> (p: String)
        ensures
            p@ == "┌─["@ + self.user_name@ + "]─]\n└─▶ "@,
    {
        concat3("┌─[", self.user_name.as_str(), "]─]\n└─▶ ")
    }

    /// What a line typed at the command prompt asks for. The server is
    /// reached for every line, before the command is looked at; `connected`
    /// tells whether that succeeded, and where it did not the line is not
    /// looked at and the command loop ends with a server error. `/set_user`
    /// takes what follows the first space, without surrounding white space
    /// (the line break of the typed line among it), as the new name.
    pub fn handle_input(&mut self, input: &str, connected: bool) -> (r: Result<
        Action,
        OnboardErrors,
    >)
        ensures
            !connected ==> {
                &&& r matches Err(OnboardErrors::ServerError(s))
                &&& s@ == "Couldn't connect to the server"@
                &&& *final(self) == *old(self)
            },
            connected ==> {
                let word = command_word(input@);
                let arg = command_argument(input@);
                &&& r matches Ok(a) && a@ == action_of(input@)
                &&& word == "/create"@ ==> (r matches Ok(Action::Create { room }) && room@ == arg)
                &&& word == "/join"@ ==> (r matches Ok(Action::Join { room }) && room@ == arg)
                &&& word == "/help"@ ==> (r matches Ok(Action::Help))
                &&& word == "/quit"@ ==> (r matches Ok(Action::Quit))
                &&& word == "/set_user"@ ==> (r matches Ok(Action::SetUser))
                &&& word != "/create"@ && word != "/join"@ && word != "/help"@ && word
                    != "/quit"@ && word != "/set_user"@ ==> (r matches Ok(Action::Invalid))
                &&& final(self).joined_room == old(self).joined_room
                &&& word == "/set_user"@ ==> final(self).user_name@ == trimmed(arg)
                &&& word != "/set_user"@ ==> final(self).user_name == old(self).user_name
            },
    {
        if !connected {
            return Err(OnboardErrors::ServerError("Couldn't connect to the server"));
        }
        let (cmd, arg) = split_once_space(input);
        let word = trim(cmd);
        proof {
            lemma_command_words_differ();
        }
        if str_equal(word, "/create") {
            Ok(Action::Create { room: arg.to_owned() })
        } else if str_equal(word, "/join") {
            Ok(Action::Join { room: arg.to_owned() })
        } else if str_equal(word, "/help") {
            Ok(Action::Help)
        } else if str_equal(word, "/set_user") {
            self.user_name = trim(arg).to_owned();
            Ok(Action::SetUser)
        } else if str_equal(word, "/quit") {
            Ok(Action::Quit)
        } else {
            Ok(Action::Invalid)
        }
    }

    /// Goes into `room`: records it as the room joined, and gives the notice
    /// to show.
    pub fn begin_join(&mut self, room: &str) -> (notice: String)
        ensures
            notice@ == "Joining room: "@ + room@,
            final(self).joined_room matches Some(j) && j@ == room@,
            final(self).user_name == old(self).user_name,
    {
        self.joined_room = Some(room.to_owned());
        concat2("Joining room: ", room)
    }

    /// What becomes of a create request, given the server's reply or the
    /// error of reading it: a failed read is taken as a refusal; a
    /// confirmation gives the notice to show; any other reply, nothing.
    pub fn create_outcome(reply: Result<Messages, OnboardErrors>) -> (r: Result<
        Option<String>,
        CreateErrors,
    >)
        ensures
            match reply {
                Err(_) => r matches Err(CreateErrors::RoomNotCreated(s)) && s@
                    == "Room already exists"@,
                Ok(Messages::Created { room }) => r matches Ok(Some(t)) && t@ == "Room Created: "@
                    + room@ + ". Join the room using /join "@ + room@,
                Ok(_) => r matches Ok(None),
            },
    {
        match reply {
            Err(_) => Err(CreateErrors::RoomNotCreated("Room already exists")),
            Ok(Messages::Created { room }) => {
                let mut t = concat3("Room Created: ", room.as_str(), ". Join the room using /join ");
                t.append(room.as_str());
                Ok(Some(t))
            },
            Ok(_) => Ok(None),
        }
    }

    /// What the client shows for a message of the server while in `room`
    /// under `user_name`, and whether it stops listening: it stops on an
    /// error.
    pub fn incoming(msg: &Messages, user_name: &str, room: &str) -> (out: Incoming)
        ensures
            out.lines@.map_values(|l: Line| l@) == match *msg {
                Messages::Message { from, text } => seq![
                    LineView::Right("["@ + from@ + "]"@),
                    LineView::Right(text@),
                    LineView::Prompt(room_prompt_text(user_name@, room@)),
                ],
                Messages::Error { msg } => seq![LineView::Center(msg@)],
                Messages::Joined { room } => seq![LineView::Center("Joined room: "@ + room@)],
                Messages::Created { room } => seq![LineView::Center("Created room: "@ + room@)],
            },
            out.stop == (*msg is Error),
    {
        let mut lines: Vec<Line> = Vec::new();
        let stop = match msg {
            Messages::Message { from, text } => {
                lines.push(Line::Right(concat3("[", from.as_str(), "]")));
                lines.push(Line::Right(text.clone()));
                lines.push(Line::Prompt(room_prompt(user_name, room)));
                false
            },
            Messages::Error { msg } => {
                lines.push(Line::Center(msg.clone()));
                true
            },
            Messages::Joined { room } => {
                lines.push(Line::Center(concat2("Joined room: ", room.as_str())));
                false
            },
            Messages::Created { room } => {
                lines.push(Line::Center(concat2("Created room: ", room.as_str())));
                false
            },
        };
        let out = Incoming { lines, stop };
        assert(out.lines@.map_values(|l: Line| l@) =~= match *msg {
            Messages::Message { from, text } => seq![
                LineView::Right("["@ + from@ + "]"@),
                LineView::Right(text@),
                LineView::Prompt(room_prompt_text(user_name@, room@)),
            ],
            Messages::Error { msg } => seq![LineView::Center(msg@)],
            Messages::Joined { room } => seq![LineView::Center("Joined room: "@ + room@)],
            Messages::Created { room } => seq![LineView::Center("Created room: "@ + room@)],
        });
        out
    }

    /// What the client does with a line typed in `room` under `user_name`,
    /// `bytes_read` being what the read gave: nothing read ends the input;
    /// `/leave`, in any case and with white space around it, leaves the room;
    /// any other line is sent as a chat message.
    pub fn outgoing(line: &str, bytes_read: usize, user_name: &str, room: &str) -> (out: Outgoing)
        ensures
            bytes_read == 0 ==> out is Closed,
            bytes_read != 0 && equal_ignoring_ascii_case(trimmed(line@), "/leave"@) ==> out is Leave,
            bytes_read != 0 && !equal_ignoring_ascii_case(trimmed(line@), "/leave"@) ==> (out matches Outgoing::Send { request } && request@ == request_line(
                seq![
                    ("type"@, "Message"@),
                    ("room"@, trimmed(room@)),
                    ("from"@, user_name@),
                    ("text"@, trimmed(line@)),
                ],
            )),
    {
        if bytes_read == 0 {
            return Outgoing::Closed;
        }
        if eq_ignore_ascii_case(trim(line), "/leave") {
            return Outgoing::Leave;
        }
        Outgoing::Send { request: message_request(room, user_name, line) }
    }

    /// The outcome of reading a line from the server, given the number of
    /// bytes read or `None` for a failed read: nothing read means the server
    /// closed the connection.
    pub fn check_read(read: Option<usize>) -> (r: Result<(), OnboardErrors>)
        ensures
            match read {
                None => r matches Err(OnboardErrors::ReadError(s)) && s@
                    == "An unexpected error occured"@,
                Some(n) => if n == 0 {
                    r matches Err(OnboardErrors::ReadError(s)) && s@ == "Connection error"@
                } else {
                    r is Ok
                },
            },
    {
        match read {
            None => Err(OnboardErrors::ReadError("An unexpected error occured")),
            Some(n) => if n == 0 {
                Err(OnboardErrors::ReadError("Connection error"))
            } else {
                Ok(())
            },
        }
    }

    /// The outcome of sending a request, given whether writing it and then
    /// flushing succeeded; a failed write is reported before the flush.
    pub fn check_send(written: bool, flushed: bool) -> (r: Result<(), OnboardErrors>)
        ensures
            !written ==> (r matches Err(OnboardErrors::JoinErrors(s)) && s@
                == "Couldn't send message"@),
            written && !flushed ==> (r matches Err(OnboardErrors::JoinErrors(s)) && s@
                == "Dev error"@),
            written && flushed ==> r is Ok,
    {
        if !written {
            Err(OnboardErrors::JoinErrors("Couldn't send message"))
        } else if !flushed {
            Err(OnboardErrors::JoinErrors("Dev error"))
        } else {
            Ok(())
        }
    }
}

} // verus!

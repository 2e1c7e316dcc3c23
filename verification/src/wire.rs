//! The requests that the terminal client writes to the server: one JSON
//! object per line, with a `type` field that names the request.

use vstd::prelude::*;

use crate::text::{trim, trimmed};

verus! {

/// The text that `serde_json` gives for a JSON object whose fields are the
/// given names and string values (`Value::Object` of `Value::String`s,
/// written by `Value::to_string`).
pub uninterp spec fn json_object_text(fields: Seq<(Seq<char>, Seq<char>)>) -> Seq<char>;

/// The fields of `fields`, each as a pair of character sequences.
pub open spec fn field_views(fields: Seq<(String, String)>) -> Seq<(Seq<char>, Seq<char>)> {
    fields.map_values(|f: (String, String)| (f.0@, f.1@))
}

/// Builds a `serde_json::Map` holding each name with its text as a
/// `serde_json::Value::String`, and writes it with `Value::to_string`. The
/// contract names the text and says nothing more of it: the field order,
/// the escaping and the treatment of a repeated name are `serde_json`'s.
#[verifier::external_body]
fn json_object(fields: &Vec<(String, String)>) -> (text: String)
    ensures
        text@ == json_object_text(field_views(fields@)),
{
    let map: serde_json::Map<String, serde_json::Value> = fields.iter().map(
        |(name, value)| (name.clone(), serde_json::Value::String(value.clone())),
    ).collect();
    serde_json::Value::Object(map).to_string()
}

/// A request line: the JSON object of `fields` and a line break.
pub open spec fn request_line(fields: Seq<(Seq<char>, Seq<char>)>) -> Seq<char> {
    json_object_text(fields) + "\n"@
}

/// Frames the text of one request as a line of its own.
pub fn frame_line(text: String) -> (line: String)
    ensures
        line@ == text@ + "\n"@,
{
    let mut line = text;
    line.append("\n");
    line
}

fn request(fields: Vec<(String, String)>) -> (line: String)
    ensures
        line@ == request_line(field_views(fields@)),
{
    frame_line(json_object(&fields))
}

/// The request to create `room`, whose name is sent without surrounding
/// white space.
pub fn create_request(room: &str) -> (line: String)
    ensures
        line@ == request_line(seq![("type"@, "CreateRoom"@), ("room"@, trimmed(room@))]),
{
    let mut fields: Vec<(String, String)> = Vec::new();
    fields.push(("type".to_owned(), "CreateRoom".to_owned()));
    fields.push(("room".to_owned(), trim(room).to_owned()));
    assert(field_views(fields@) =~= seq![("type"@, "CreateRoom"@), ("room"@, trimmed(room@))]);
    request(fields)
}

/// The request to join `room`, whose name is sent without surrounding white
/// space.
pub fn join_request(room: &str) -> (line: String)
    ensures
        line@ == request_line(seq![("type"@, "JoinRoom"@), ("room"@, trimmed(room@))]),
{
    let mut fields: Vec<(String, String)> = Vec::new();
    fields.push(("type".to_owned(), "JoinRoom".to_owned()));
    fields.push(("room".to_owned(), trim(room).to_owned()));
    assert(field_views(fields@) =~= seq![("type"@, "JoinRoom"@), ("room"@, trimmed(room@))]);
    request(fields)
}

/// The request to send `text` to `room` as `from`; the room and the text are
/// sent without surrounding white space, the sender's name as it is.
pub fn message_request(room: &str, from: &str, text: &str) -> (line: String)
    ensures
        line@ == request_line(
            seq![
                ("type"@, "Message"@),
                ("room"@, trimmed(room@)),
                ("from"@, from@),
                ("text"@, trimmed(text@)),
            ],
        ),
{
    let mut fields: Vec<(String, String)> = Vec::new();
    fields.push(("type".to_owned(), "Message".to_owned()));
    fields.push(("room".to_owned(), trim(room).to_owned()));
    fields.push(("from".to_owned(), from.to_owned()));
    fields.push(("text".to_owned(), trim(text).to_owned()));
    assert(field_views(fields@) =~= seq![
        ("type"@, "Message"@),
        ("room"@, trimmed(room@)),
        ("from"@, from@),
        ("text"@, trimmed(text@)),
    ]);
    request(fields)
}

} // verus!

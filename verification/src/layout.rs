//! Placement of a line of text on a terminal of a given width: flush right,
//! or centred. The width of the terminal is read at the edge; `None` stands
//! for a terminal whose size could not be read.

use vstd::prelude::*;

use crate::text::{concat2, concat3, space_string, spaces};

verus! {

/// The number of terminal columns that `unicode_width` gives for `s`
/// (`UnicodeWidthStr::width`, ambiguous characters one column wide).
pub uninterp spec fn display_width(s: Seq<char>) -> usize;

/// Calls `UnicodeWidthStr::width` of `unicode_width` on `s`. The contract
/// names the result; the width tables it rests on are the crate's.
#[verifier::external_body]
fn text_width(s: &str) -> (w: usize)
    ensures
        w == display_width(s@),
{
    unicode_width::UnicodeWidthStr::width(s)
}

/// The output that puts `msg`, `msg_width` columns wide, flush right on a
/// terminal `cols` wide: preceded by the free columns, so that it ends at the
/// terminal's right edge, and ended by `"\r\n"` where it fits, else printed
/// as it is on a line of its own.
pub open spec fn right_aligned_text(msg: Seq<char>, msg_width: usize, cols: Option<u16>) -> Seq<
    char,
> {
    match cols {
        Some(c) => if msg_width < c {
            spaces((c - msg_width) as nat) + msg + "\r\n"@
        } else {
            msg + "\n"@
        },
        None => msg + "\n"@,
    }
}

/// The output that centres `msg`, `msg_width` columns wide, on a terminal
/// `cols` wide: preceded by half the free columns, rounded down, where it
/// fits, else printed as it is; ended by a line break.
pub open spec fn centered_text(msg: Seq<char>, msg_width: usize, cols: Option<u16>) -> Seq<char> {
    match cols {
        Some(c) => if msg_width < c {
            spaces(((c - msg_width) / 2) as nat) + msg + "\n"@
        } else {
            msg + "\n"@
        },
        None => msg + "\n"@,
    }
}

/// The output that puts `msg`, `msg_width` columns wide, flush right on a
/// terminal `cols` wide.
pub fn right_aligned_line(msg: &str, msg_width: usize, cols: Option<u16>) -> (out: String)
    ensures
        out@ == right_aligned_text(msg@, msg_width, cols),
{
    match cols {
        Some(c) => {
            let width = c as usize;
            if msg_width < width {
                let spaces = space_string(width - msg_width);
                concat3(spaces.as_str(), msg, "\r\n")
            } else {
                concat2(msg, "\n")
            }
        },
        None => concat2(msg, "\n"),
    }
}

/// The output that centres `msg`, `msg_width` columns wide, on a terminal
/// `cols` wide.
pub fn centered_line(msg: &str, msg_width: usize, cols: Option<u16>) -> (out: String)
    ensures
        out@ == centered_text(msg@, msg_width, cols),
{
    match cols {
        Some(c) => {
            let width = c as usize;
            if msg_width < width {
                let spaces = space_string((width - msg_width) / 2);
                concat3(spaces.as_str(), msg, "\n")
            } else {
                concat2(msg, "\n")
            }
        },
        None => concat2(msg, "\n"),
    }
}

/// The output that puts `msg` flush right on a terminal `cols` wide, by its
/// display width.
pub fn right_aligned(msg: &str, cols: Option<u16>) -> (out: String)
    ensures
        out@ == right_aligned_text(msg@, display_width(msg@), cols),
{
    let w = text_width(msg);
    right_aligned_line(msg, w, cols)
}

/// The output that centres `msg` on a terminal `cols` wide, by its display
/// width.
pub fn centered(msg: &str, cols: Option<u16>) -> (out: String)
    ensures
        out@ == centered_text(msg@, display_width(msg@), cols),
{
    let w = text_width(msg);
    centered_line(msg, w, cols)
}

/// A message narrower than the terminal is preceded by exactly as many
/// spaces as the terminal has columns beyond its display width, so that
/// together they take the terminal's whole width; the message follows them.
pub proof fn right_aligned_fills_width(msg: Seq<char>, msg_width: usize, c: u16)
    requires
        msg_width < c,
    ensures
        ({
            let t = right_aligned_text(msg, msg_width, Some(c));
            let pad = (c - msg_width) as int;
            &&& t.len() == pad + msg.len() + 2
            &&& forall|i: int| 0 <= i < pad ==> t[i] == ' '
            &&& pad + msg_width == c
            &&& t.subrange(pad, pad + msg.len()) == msg
            &&& t.subrange(pad + msg.len(), t.len() as int) == seq!['\r', '\n']
        }),
{
    reveal_strlit("\r\n");
    assert("\r\n"@ =~= seq!['\r', '\n']);
    let t = right_aligned_text(msg, msg_width, Some(c));
    let pad = (c - msg_width) as int;
    assert(t.subrange(pad, pad + msg.len()) =~= msg);
    assert(t.subrange(pad + msg.len(), t.len() as int) =~= seq!['\r', '\n']);
}

/// A centred message that fits leaves on its right at least as many free
/// columns as it has spaces on its left, and at most one more.
pub proof fn centered_is_balanced(msg: Seq<char>, msg_width: usize, c: u16)
    requires
        msg_width < c,
    ensures
        ({
            let left = centered_text(msg, msg_width, Some(c)).len() - msg.len() - 1;
            let right = c - msg_width - left;
            left <= right <= left + 1
        }),
{
    reveal_strlit("\n");
}

/// A message that fits is centred: the output is half the free columns,
/// rounded down, of spaces, then the whole message, then one line break.
pub proof fn centered_places_message_after_padding(msg: Seq<char>, msg_width: usize, c: u16)
    requires
        msg_width < c,
    ensures
        ({
            let t = centered_text(msg, msg_width, Some(c));
            let pad = (c - msg_width) / 2;
            &&& t.len() == pad + msg.len() + 1
            &&& forall|i: int| 0 <= i < pad ==> t[i] == ' '
            &&& t.subrange(pad, pad + msg.len()) == msg
            &&& t[t.len() - 1] == '\n'
            &&& 2 * pad <= c - msg_width <= 2 * pad + 1
        }),
{
    reveal_strlit("\n");
    let t = centered_text(msg, msg_width, Some(c));
    let pad = (c - msg_width) / 2;
    assert(t.subrange(pad, pad + msg.len()) =~= msg);
}

/// A message that does not fit the terminal, or a terminal whose width is
/// not known, gets the whole message on a line of its own, nothing cut and
/// nothing added before it, by either placement.
pub proof fn unfitting_message_printed_whole(msg: Seq<char>, msg_width: usize, cols: Option<u16>)
    requires
        cols matches Some(c) ==> msg_width >= c,
    ensures
        right_aligned_text(msg, msg_width, cols) == msg + seq!['\n'],
        centered_text(msg, msg_width, cols) == msg + seq!['\n'],
        right_aligned_text(msg, msg_width, cols).subrange(0, msg.len() as int) == msg,
{
    reveal_strlit("\n");
    assert("\n"@ =~= seq!['\n']);
    assert((msg + seq!['\n']).subrange(0, msg.len() as int) =~= msg);
}

} // verus!

use termchat::layout::{centered, centered_line, right_aligned, right_aligned_line};
use termchat::wire::{create_request, join_request, message_request};

#[test]
fn create_request_text() {
    assert_eq!(create_request("  lodge\n"), "{\"room\":\"lodge\",\"type\":\"CreateRoom\"}\n");
}

#[test]
fn join_request_text() {
    assert_eq!(join_request("lodge\n"), "{\"room\":\"lodge\",\"type\":\"JoinRoom\"}\n");
}

#[test]
fn message_request_escapes_text() {
    assert_eq!(
        message_request("r", "me ", " say \"hi\"\\ \n"),
        "{\"from\":\"me \",\"room\":\"r\",\"text\":\"say \\\"hi\\\"\\\\\",\"type\":\"Message\"}\n"
    );
}

#[test]
fn right_aligned_pads_to_width() {
    assert_eq!(right_aligned_line("abc", 3, Some(10)), format!("{}abc\r\n", " ".repeat(7)));
    assert_eq!(right_aligned("Hello world", Some(20)), format!("{}Hello world\r\n", " ".repeat(9)));
    assert_eq!(right_aligned("漢字", Some(6)), "  漢字\r\n");
    assert_eq!(right_aligned("你好", Some(10)), "      你好\r\n");
}

#[test]
fn right_aligned_falls_back() {
    assert_eq!(right_aligned("abc", Some(3)), "abc\n");
    assert_eq!(right_aligned("abc", None), "abc\n");
    assert_eq!(right_aligned("漢字", Some(4)), "漢字\n");
}

#[test]
fn centered_pads_half_the_space() {
    assert_eq!(centered_line("abc", 3, Some(10)), "   abc\n");
    assert_eq!(centered("Hello world", Some(20)), "    Hello world\n");
    assert_eq!(centered("漢字", Some(10)), "   漢字\n");
}

#[test]
fn centered_falls_back() {
    assert_eq!(centered("abc", Some(2)), "abc\n");
    assert_eq!(centered("abc", None), "abc\n");
}

#[test]
fn framing_adds_one_line_break() {
    assert_eq!(termchat::wire::frame_line("{}".to_string()), "{}\n");
}

use rcon_cli::render::{render, render_error, render_ok, render_refusal, spaced_words};
use rcon_cli::{Color, ErrorKind, Mode, Piece};

fn describe(pieces: &[Piece]) -> Vec<String> {
    pieces
        .iter()
        .map(|p| match p {
            Piece::Foreground(c) => format!("fg {:?}", c),
            Piece::Background(c) => format!("bg {:?}", c),
            Piece::ResetColors => "reset".to_string(),
            Piece::Text(t) => format!("text {}", t),
            Piece::LineEnd => "end".to_string(),
        })
        .collect()
}

fn owned(ws: &[&str]) -> Vec<String> {
    ws.iter().map(|w| w.to_string()).collect()
}

#[test]
fn raw_ok_reply_scenario() {
    let r = render_ok(&owned(&["OK"]), Mode::Raw, "2024-01-01 00:00:00 UTC");
    assert_eq!(describe(&r), vec!["text OK OK", "end"]);
}

#[test]
fn raw_ok_reply_words_once_in_order() {
    let r = render(&Ok(owned(&["OK", "3", "server name"])), Mode::Raw, "T");
    assert_eq!(describe(&r), vec!["text OK OK 3 server name", "end"]);
    assert!(r.iter().all(|p| matches!(p, Piece::Text(_) | Piece::LineEnd)));
}

#[test]
fn raw_ok_reply_without_words() {
    let r = render(&Ok(Vec::new()), Mode::Raw, "T");
    assert_eq!(describe(&r), vec!["text OK", "end"]);
}

#[test]
fn colored_ok_reply() {
    let r = render_ok(&owned(&["OK", "1"]), Mode::Colored, "T");
    assert_eq!(
        describe(&r),
        vec![
            "fg Black", "bg Green", "text <- OK", "fg Green", "bg Reset", "text  T OK 1", "reset",
            "end"
        ]
    );
}

#[test]
fn raw_errors() {
    let r = render_error(&ErrorKind::Other("boom".to_string()), Mode::Raw);
    assert_eq!(describe(&r), vec!["text Error: boom", "end"]);
    let r = render_error(&ErrorKind::ConnectionClosed, Mode::Raw);
    assert_eq!(describe(&r), vec!["text Connection Closed", "end"]);
    let r = render_error(&ErrorKind::InvalidArguments, Mode::Raw);
    assert_eq!(describe(&r), vec!["text Invalid Arguments", "end"]);
    let r = render(&Err(ErrorKind::UnknownCommand), Mode::Raw, "T");
    assert_eq!(describe(&r), vec!["text Unknown Command", "end"]);
}

#[test]
fn colored_errors() {
    let r = render_error(&ErrorKind::Other("boom".to_string()), Mode::Colored);
    assert_eq!(
        describe(&r),
        vec!["fg Black", "bg Red", "text <- Error", "fg Red", "bg Reset", "text  boom", "reset", "end"]
    );
    let r = render_error(&ErrorKind::UnknownCommand, Mode::Colored);
    assert_eq!(
        describe(&r),
        vec!["fg Black", "bg Red", "bg DarkRed", "text <- Unknown Command", "reset", "end"]
    );
    assert!(matches!(r[2], Piece::Background(Color::DarkRed)));
}

#[test]
fn refusal_is_shown_as_error() {
    let r = render_refusal(Mode::Raw);
    assert_eq!(describe(&r), vec!["text Error: input is not ASCII", "end"]);
}

#[test]
fn spaced_words_puts_a_space_before_each_word() {
    assert_eq!(spaced_words(&owned(&["a", "", "b"])), " a  b");
    assert_eq!(spaced_words(&Vec::new()), "");
}

use rcon_cli::session::single_query_exit_code;
use rcon_cli::{Action, ErrorKind, Mode, Phase, Piece, Session};

fn kinds(acts: &[Action]) -> Vec<String> {
    acts.iter()
        .map(|a| match a {
            Action::Prompt => "prompt".to_string(),
            Action::Send(q) => format!("send {}", q.words.join("|")),
            Action::Show(p) => match p.first() {
                Some(Piece::Text(t)) => format!("show {}", t),
                _ => "show".to_string(),
            },
            Action::Exit(c) => format!("exit {}", c),
        })
        .collect()
}

fn owned(ws: &[&str]) -> Vec<String> {
    ws.iter().map(|w| w.to_string()).collect()
}

#[test]
fn raw_session_turn() {
    let mut s = Session::new(Mode::Raw);
    assert!(s.start().is_empty());
    let acts = s.on_line("admin.say hello world");
    assert_eq!(kinds(&acts), vec!["send admin.say|hello|world"]);
    assert_eq!(s.phase, Phase::Waiting);
    let acts = s.on_reply(&Ok(owned(&["OK"])), "T");
    assert_eq!(kinds(&acts), vec!["show OK OK"]);
    assert_eq!(s.phase, Phase::Reading);
}

#[test]
fn end_of_input_ends_cleanly() {
    let mut s = Session::new(Mode::Colored);
    let acts = s.on_end_of_input();
    assert_eq!(kinds(&acts), vec!["exit 0"]);
    assert_eq!(s.phase, Phase::Finished);
}

#[test]
fn colored_session_prompts_between_turns() {
    let mut s = Session::new(Mode::Colored);
    assert_eq!(kinds(&s.start()), vec!["prompt"]);
    s.on_line("serverInfo");
    let acts = s.on_reply(&Err(ErrorKind::InvalidArguments), "T");
    assert_eq!(kinds(&acts), vec!["show", "prompt"]);
}

#[test]
fn non_ascii_line_is_never_sent() {
    let mut s = Session::new(Mode::Raw);
    let acts = s.on_line("admin.say héllo");
    assert_eq!(kinds(&acts), vec!["show Error: input is not ASCII"]);
    assert_eq!(s.phase, Phase::Reading);
    let mut s = Session::new(Mode::Colored);
    let acts = s.on_line("ünicode");
    assert!(!acts.iter().any(|a| matches!(a, Action::Send(_))));
    assert!(matches!(acts.last(), Some(Action::Prompt)));
}

#[test]
fn closed_connection_ends_without_prompt() {
    let mut s = Session::new(Mode::Colored);
    s.on_line("version");
    let acts = s.on_reply(&Err(ErrorKind::ConnectionClosed), "T");
    assert_eq!(acts.len(), 2);
    assert!(matches!(acts[1], Action::Exit(0)));
    assert!(!acts.iter().any(|a| matches!(a, Action::Prompt)));
    assert_eq!(s.phase, Phase::Finished);
    assert!(s.on_line("version").is_empty());
    assert!(s.on_end_of_input().is_empty());
}

#[test]
fn other_error_keeps_session_going() {
    let mut s = Session::new(Mode::Raw);
    s.on_line("bogus");
    let acts = s.on_reply(&Err(ErrorKind::Other("nope".to_string())), "T");
    assert_eq!(kinds(&acts), vec!["show Error: nope"]);
    assert_eq!(s.phase, Phase::Reading);
}

#[test]
fn read_failure_ends_with_failure_code() {
    let mut s = Session::new(Mode::Raw);
    assert_eq!(kinds(&s.on_read_failure()), vec!["exit 1"]);
}

#[test]
fn reply_out_of_turn_is_ignored() {
    let mut s = Session::new(Mode::Raw);
    assert!(s.on_reply(&Ok(Vec::new()), "T").is_empty());
    assert_eq!(s.phase, Phase::Reading);
}

#[test]
fn reply_now_shows_current_time() {
    let mut s = Session::new(Mode::Colored);
    s.on_line("version");
    let acts = s.on_reply_now(&Ok(owned(&["OK", "BF4"])));
    match &acts[0] {
        Action::Show(p) => match &p[5] {
            Piece::Text(t) => {
                assert!(t.ends_with(" OK BF4"));
                assert!(t.contains("UTC"));
            }
            _ => panic!("no time stamp shown"),
        },
        _ => panic!("reply not shown"),
    }
}

#[test]
fn single_query_exit_codes() {
    assert_eq!(single_query_exit_code(&Err(ErrorKind::ConnectionClosed)), 1);
    assert_eq!(single_query_exit_code(&Err(ErrorKind::UnknownCommand)), 0);
    assert_eq!(single_query_exit_code(&Ok(Vec::new())), 0);
}

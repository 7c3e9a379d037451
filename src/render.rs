//! How a reply to a query is shown: as plain text for scripts, or with colors
//! for a person at a terminal.

use crate::words::{join_spaces, views};
use vstd::prelude::*;
use vstd::string::StringExecFns;

verus! {

/// A terminal color.
#[derive(Debug, PartialEq, Eq, Structural, Clone, Copy)]
pub enum Color {
    Black,
    Green,
    Red,
    DarkRed,
    /// The terminal's own color.
    Reset,
}

/// Why the server did not carry out a query.
#[derive(Debug)]
pub enum ErrorKind {
    /// A failure that the server described in its own words.
    Other(String),
    /// The connection to the server is gone.
    ConnectionClosed,
    /// The server refused the query's arguments.
    InvalidArguments,
    /// The server does not know the query's command.
    UnknownCommand,
}

/// The outcome of one query: the reply's words, or why there was none.
pub type QueryResult = Result<Vec<String>, ErrorKind>;

/// The two ways of showing a reply.
#[derive(Debug, PartialEq, Eq, Structural, Clone, Copy)]
pub enum Mode {
    /// Plain text, one line per reply, without escape sequences.
    Raw,
    /// Colored, with arrows and the time of the reply.
    Colored,
}

/// One step of terminal output.
#[derive(Debug)]
pub enum Piece {
    Foreground(Color),
    Background(Color),
    /// Back to the terminal's own colors.
    ResetColors,
    Text(String),
    LineEnd,
}

/// What a piece of output is, with its text as characters.
pub enum PieceView {
    Foreground(Color),
    Background(Color),
    ResetColors,
    Text(Seq<char>),
    LineEnd,
}

impl View for Piece {
    type V = PieceView;

    open spec fn view(&self) -> PieceView {
        match self {
            Piece::Foreground(c) => PieceView::Foreground(*c),
            Piece::Background(c) => PieceView::Background(*c),
            Piece::ResetColors => PieceView::ResetColors,
            Piece::Text(s) => PieceView::Text(s@),
            Piece::LineEnd => PieceView::LineEnd,
        }
    }
}

/// The views of a sequence of pieces.
pub open spec fn pieces_view(v: Seq<Piece>) -> Seq<PieceView> {
    v.map_values(|p: Piece| p@)
}

/// Output that changes no color: text and line ends only.
pub open spec fn is_plain(v: Seq<PieceView>) -> bool {
    forall|i: int| 0 <= i < v.len() ==> (#[trigger] v[i] is Text || v[i] is LineEnd)
}

/// Each word with one space in front of it.
pub open spec fn spaced(ws: Seq<Seq<char>>) -> Seq<char>
    decreases ws.len(),
{
    if ws.len() == 0 {
        Seq::empty()
    } else {
        spaced(ws.drop_last()) + seq![' '] + ws.last()
    }
}

/// The fixed label of an error without a message of its own.
pub open spec fn label(e: ErrorKind) -> Seq<char> {
    match e {
        ErrorKind::Other(_) => "Error"@,
        ErrorKind::ConnectionClosed => "Connection Closed"@,
        ErrorKind::InvalidArguments => "Invalid Arguments"@,
        ErrorKind::UnknownCommand => "Unknown Command"@,
    }
}

/// How a successful reply with the words `ws` is shown; `stamp` is the time of
/// the reply, shown in colored mode only.
pub open spec fn ok_pieces(ws: Seq<Seq<char>>, mode: Mode, stamp: Seq<char>) -> Seq<PieceView> {
    match mode {
        Mode::Raw => seq![PieceView::Text("OK"@ + spaced(ws)), PieceView::LineEnd],
        Mode::Colored => seq![
            PieceView::Foreground(Color::Black),
            PieceView::Background(Color::Green),
            PieceView::Text("<- OK"@),
            PieceView::Foreground(Color::Green),
            PieceView::Background(Color::Reset),
            PieceView::Text(seq![' '] + stamp + spaced(ws)),
            PieceView::ResetColors,
            PieceView::LineEnd,
        ],
    }
}

/// How a failure that comes with the message `m` is shown.
pub open spec fn message_pieces(m: Seq<char>, mode: Mode) -> Seq<PieceView> {
    match mode {
        Mode::Raw => seq![PieceView::Text("Error: "@ + m), PieceView::LineEnd],
        Mode::Colored => seq![
            PieceView::Foreground(Color::Black),
            PieceView::Background(Color::Red),
            PieceView::Text("<- Error"@),
            PieceView::Foreground(Color::Red),
            PieceView::Background(Color::Reset),
            PieceView::Text(seq![' '] + m),
            PieceView::ResetColors,
            PieceView::LineEnd,
        ],
    }
}

/// How a failure known by its label `l` alone is shown.
pub open spec fn label_pieces(l: Seq<char>, mode: Mode) -> Seq<PieceView> {
    match mode {
        Mode::Raw => seq![PieceView::Text(l), PieceView::LineEnd],
        Mode::Colored => seq![
            PieceView::Foreground(Color::Black),
            PieceView::Background(Color::Red),
            PieceView::Background(Color::DarkRed),
            PieceView::Text("<- "@ + l),
            PieceView::ResetColors,
            PieceView::LineEnd,
        ],
    }
}

/// How the failure `e` is shown.
pub open spec fn error_pieces(e: ErrorKind, mode: Mode) -> Seq<PieceView> {
    match e {
        ErrorKind::Other(m) => message_pieces(m@, mode),
        _ => label_pieces(label(e), mode),
    }
}

/// How the outcome `r` of a query is shown.
pub open spec fn result_pieces(r: QueryResult, mode: Mode, stamp: Seq<char>) -> Seq<PieceView> {
    match r {
        Ok(words) => ok_pieces(views(words@), mode, stamp),
        Err(e) => error_pieces(e, mode),
    }
}

/// What is shown for input that is not ASCII.
pub open spec fn refusal() -> Seq<char> {
    "input is not ASCII"@
}

/// The words, each with one space in front of it.
pub fn spaced_words(words: &Vec<String>) -> (r: String)
    ensures
        r@ == spaced(views(words@)),
{
    let mut out = String::new();
    let mut i: usize = 0;
    while i < words.len()
        invariant
            i <= words@.len(),
            out@ == spaced(views(words@).take(i as int)),
        decreases words@.len() - i,
    {
        let ghost ws = views(words@);
        assert(ws.take(i + 1).drop_last() == ws.take(i as int));
        out.append(" ");
        out.append(words[i].as_str());
        proof {
            reveal_strlit(" ");
        }
        i = i + 1;
    }
    assert(views(words@).take(i as int) == views(words@));
    out
}

fn text_of(a: &str, b: &str) -> (r: Piece)
    ensures
        r@ == PieceView::Text(a@ + b@),
{
    let mut s = String::from_str(a);
    s.append(b);
    Piece::Text(s)
}

/// Shows a successful reply.
pub fn render_ok(words: &Vec<String>, mode: Mode, stamp: &str) -> (r: Vec<Piece>)
    ensures
        pieces_view(r@) == ok_pieces(views(words@), mode, stamp@),
{
    let tail = spaced_words(words);
    let mut v: Vec<Piece> = Vec::new();
    match mode {
        Mode::Raw => {
            v.push(text_of("OK", tail.as_str()));
            v.push(Piece::LineEnd);
        },
        Mode::Colored => {
            v.push(Piece::Foreground(Color::Black));
            v.push(Piece::Background(Color::Green));
            v.push(text_of("<- OK", ""));
            v.push(Piece::Foreground(Color::Green));
            v.push(Piece::Background(Color::Reset));
            let mut line = String::from_str(" ");
            line.append(stamp);
            line.append(tail.as_str());
            v.push(Piece::Text(line));
            v.push(Piece::ResetColors);
            v.push(Piece::LineEnd);
            proof {
                reveal_strlit(" ");
                reveal_strlit("");
                assert(" "@ == seq![' ']);
                assert("<- OK"@ + ""@ == "<- OK"@);
            }
        },
    }
    assert(pieces_view(v@) == ok_pieces(views(words@), mode, stamp@));
    v
}

/// Shows a failure.
pub fn render_error(e: &ErrorKind, mode: Mode) -> (r: Vec<Piece>)
    ensures
        pieces_view(r@) == error_pieces(*e, mode),
{
    let mut v: Vec<Piece> = Vec::new();
    let l = match e {
        ErrorKind::Other(_) => "Error",
        ErrorKind::ConnectionClosed => "Connection Closed",
        ErrorKind::InvalidArguments => "Invalid Arguments",
        ErrorKind::UnknownCommand => "Unknown Command",
    };
    match mode {
        Mode::Raw => {
            match e {
                ErrorKind::Other(m) => v.push(text_of("Error: ", m.as_str())),
                _ => v.push(text_of(l, "")),
            }
            v.push(Piece::LineEnd);
        },
        Mode::Colored => {
            v.push(Piece::Foreground(Color::Black));
            v.push(Piece::Background(Color::Red));
            match e {
                ErrorKind::Other(m) => {
                    v.push(text_of("<- Error", ""));
                    v.push(Piece::Foreground(Color::Red));
                    v.push(Piece::Background(Color::Reset));
                    v.push(text_of(" ", m.as_str()));
                },
                _ => {
                    v.push(Piece::Background(Color::DarkRed));
                    v.push(text_of("<- ", l));
                },
            }
            v.push(Piece::ResetColors);
            v.push(Piece::LineEnd);
        },
    }
    proof {
        reveal_strlit(" ");
        reveal_strlit("");
        assert(" "@ == seq![' ']);
        assert(l@ + ""@ == l@);
        assert("<- Error"@ + ""@ == "<- Error"@);
    }
    assert(pieces_view(v@) == error_pieces(*e, mode));
    v
}

/// Shows that input was refused for holding characters that are not ASCII.
pub fn render_refusal(mode: Mode) -> (r: Vec<Piece>)
    ensures
        pieces_view(r@) == message_pieces(refusal(), mode),
{
    render_error(&ErrorKind::Other(String::from_str("input is not ASCII")), mode)
}

/// Shows the outcome of a query; `stamp` is the time of the reply, shown in
/// colored mode only.
pub fn render(result: &QueryResult, mode: Mode, stamp: &str) -> (r: Vec<Piece>)
    ensures
        pieces_view(r@) == result_pieces(*result, mode, stamp@),
{
    match result {
        Ok(words) => render_ok(words, mode, stamp),
        Err(e) => render_error(e, mode),
    }
}


proof fn lemma_spaced_join(ws: Seq<Seq<char>>)
    requires
        ws.len() >= 1,
    ensures
        spaced(ws) == seq![' '] + join_spaces(ws),
    decreases ws.len(),
{
    if ws.len() == 1 {
        assert(ws.drop_last() == Seq::<Seq<char>>::empty());
        assert(spaced(ws.drop_last()) == Seq::<char>::empty());
        assert(Seq::<char>::empty() + seq![' '] + ws[0] == seq![' '] + ws[0]);
    } else {
        lemma_spaced_join(ws.drop_last());
        let j = join_spaces(ws.drop_last());
        assert(seq![' '] + j + seq![' '] + ws.last() == seq![' '] + (j + seq![' '] + ws.last()));
    }
}

/// In raw mode a successful reply is a single plain line with no color change:
/// "OK", then each word of the reply exactly once and in order, each after a
/// single space.
pub proof fn lemma_raw_reply(ws: Seq<Seq<char>>, stamp: Seq<char>)
    ensures
        ok_pieces(ws, Mode::Raw, stamp) == seq![
            PieceView::Text("OK"@ + spaced(ws)),
            PieceView::LineEnd,
        ],
        is_plain(ok_pieces(ws, Mode::Raw, stamp)),
        ws.len() == 0 ==> "OK"@ + spaced(ws) == "OK"@,
        ws.len() > 0 ==> "OK"@ + spaced(ws) == "OK"@ + seq![' '] + join_spaces(ws),
{
    let v = ok_pieces(ws, Mode::Raw, stamp);
    assert(v.len() == 2 && v[0] is Text && v[1] is LineEnd);
    if ws.len() > 0 {
        lemma_spaced_join(ws);
        assert("OK"@ + (seq![' '] + join_spaces(ws)) == "OK"@ + seq![' '] + join_spaces(ws));
    } else {
        assert("OK"@ + Seq::<char>::empty() == "OK"@);
    }
}

} // verus!

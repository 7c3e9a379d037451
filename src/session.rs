//! The interactive session: each line read becomes a query, each reply is
//! shown, and the session ends on end of input, on a failed read, or when the
//! connection is closed.

use crate::clock::now_text;
use crate::render::{
    message_pieces, pieces_view, refusal, render, render_refusal, result_pieces, ErrorKind, Mode,
    Piece, PieceView, QueryResult,
};
use crate::words::{is_ascii_text, split_spaces, tokenize, Query};
use vstd::prelude::*;

verus! {

/// Where a session stands.
#[derive(Debug, PartialEq, Eq, Structural, Clone, Copy)]
pub enum Phase {
    /// Waiting for the next line of input.
    Reading,
    /// A query was sent; waiting for its reply.
    Waiting,
    /// The session is over.
    Finished,
}

/// What the program around the session is to do next.
pub enum Action {
    /// Show the prompt and flush the output.
    Prompt,
    /// Send this query to the server and hand its outcome back.
    Send(Query),
    /// Print these pieces.
    Show(Vec<Piece>),
    /// End the program with this exit code.
    Exit(i32),
}

/// What an action is, as values.
pub enum ActionView {
    Prompt,
    Send(Seq<Seq<char>>),
    Show(Seq<PieceView>),
    Exit(i32),
}

impl View for Action {
    type V = ActionView;

    open spec fn view(&self) -> ActionView {
        match self {
            Action::Prompt => ActionView::Prompt,
            Action::Send(q) => ActionView::Send(q@),
            Action::Show(p) => ActionView::Show(pieces_view(p@)),
            Action::Exit(c) => ActionView::Exit(*c),
        }
    }
}

/// The views of a sequence of actions.
pub open spec fn actions_view(v: Seq<Action>) -> Seq<ActionView> {
    v.map_values(|a: Action| a@)
}

/// No action sends a query.
pub open spec fn sends_nothing(v: Seq<ActionView>) -> bool {
    forall|i: int| 0 <= i < v.len() ==> !(#[trigger] v[i] is Send)
}

/// No action shows the prompt.
pub open spec fn prompts_nothing(v: Seq<ActionView>) -> bool {
    forall|i: int| 0 <= i < v.len() ==> !(#[trigger] v[i] is Prompt)
}

/// The prompt, which colored mode shows before each line and raw mode never.
pub open spec fn prompt(mode: Mode) -> Seq<ActionView> {
    match mode {
        Mode::Colored => seq![ActionView::Prompt],
        Mode::Raw => Seq::empty(),
    }
}

/// An interactive session.
#[derive(Debug, PartialEq, Eq, Structural, Clone, Copy)]
pub struct Session {
    pub mode: Mode,
    pub phase: Phase,
}

/// The session `s` after the line `line`, and what it asks for.
pub open spec fn line_step(s: Session, line: Seq<char>) -> (Session, Seq<ActionView>) {
    if s.phase != Phase::Reading {
        (s, Seq::empty())
    } else if is_ascii_text(line) {
        (Session { phase: Phase::Waiting, ..s }, seq![ActionView::Send(split_spaces(line))])
    } else {
        (s, seq![ActionView::Show(message_pieces(refusal(), s.mode))] + prompt(s.mode))
    }
}

/// The session `s` after the reply `r`, received at the time `stamp`.
pub open spec fn reply_step(s: Session, r: QueryResult, stamp: Seq<char>) -> (
    Session,
    Seq<ActionView>,
) {
    if s.phase != Phase::Waiting {
        (s, Seq::empty())
    } else {
        let shown = ActionView::Show(result_pieces(r, s.mode, stamp));
        match r {
            Err(ErrorKind::ConnectionClosed) => (
                Session { phase: Phase::Finished, ..s },
                seq![shown, ActionView::Exit(0)],
            ),
            _ => (Session { phase: Phase::Reading, ..s }, seq![shown] + prompt(s.mode)),
        }
    }
}

/// The session `s` after the input ran out: a clean end.
pub open spec fn end_step(s: Session) -> (Session, Seq<ActionView>) {
    if s.phase != Phase::Reading {
        (s, Seq::empty())
    } else {
        (Session { phase: Phase::Finished, ..s }, seq![ActionView::Exit(0)])
    }
}

/// The session `s` after reading the input failed: an abnormal end.
pub open spec fn failure_step(s: Session) -> (Session, Seq<ActionView>) {
    if s.phase != Phase::Reading {
        (s, Seq::empty())
    } else {
        (Session { phase: Phase::Finished, ..s }, seq![ActionView::Exit(1)])
    }
}

impl Session {
    /// A session that waits for its first line.
    pub fn new(mode: Mode) -> (r: Session)
        ensures
            r.mode == mode,
            r.phase == Phase::Reading,
    {
        Session { mode, phase: Phase::Reading }
    }

    fn prompt_after(&self, v: &mut Vec<Action>)
        ensures
            actions_view(final(v)@) == actions_view(old(v)@) + prompt(self.mode),
            final(v)@ == old(v)@ || final(v)@ == old(v)@.push(Action::Prompt),
    {
        let ghost before = v@;
        if self.mode == Mode::Colored {
            v.push(Action::Prompt);
        }
        assert(actions_view(v@) == actions_view(before) + prompt(self.mode));
    }

    /// What is done before the first line is read: the prompt, in colored mode.
    pub fn start(&self) -> (r: Vec<Action>)
        ensures
            actions_view(r@) == prompt(self.mode),
    {
        let mut v: Vec<Action> = Vec::new();
        self.prompt_after(&mut v);
        assert(actions_view(v@) == Seq::<ActionView>::empty() + prompt(self.mode));
        v
    }

    /// Takes a line of input: a line of ASCII words becomes a query to send;
    /// any other line is refused, and nothing is sent.
    pub fn on_line(&mut self, line: &str) -> (r: Vec<Action>)
        ensures
            (*final(self), actions_view(r@)) == line_step(*old(self), line@),
            !is_ascii_text(line@) ==> sends_nothing(actions_view(r@)),
            forall|i: int|
                0 <= i < r@.len() ==> (#[trigger] r@[i] matches Action::Send(q) ==> q.wf()),
    {
        let mut v: Vec<Action> = Vec::new();
        if self.phase != Phase::Reading {
            assert(actions_view(v@) == Seq::<ActionView>::empty());
            return v;
        }
        match tokenize(line) {
            Ok(q) => {
                v.push(Action::Send(q));
                self.phase = Phase::Waiting;
                assert(actions_view(v@) == seq![ActionView::Send(split_spaces(line@))]);
                assert(v@[0] matches Action::Send(q) && q.wf());
            },
            Err(_) => {
                v.push(Action::Show(render_refusal(self.mode)));
                assert(actions_view(v@) == seq![ActionView::Show(message_pieces(refusal(), self.mode))]);
                self.prompt_after(&mut v);
                assert(v@[0] is Show);
                assert(v@.len() == 1 || v@[1] is Prompt);
            },
        }
        v
    }

    /// Takes the outcome of the query that was sent, received at the time
    /// `stamp`: shows it, then ends the session if the connection was closed,
    /// and otherwise waits for the next line.
    pub fn on_reply(&mut self, result: &QueryResult, stamp: &str) -> (r: Vec<Action>)
        ensures
            (*final(self), actions_view(r@)) == reply_step(*old(self), *result, stamp@),
    {
        let mut v: Vec<Action> = Vec::new();
        if self.phase != Phase::Waiting {
            assert(actions_view(v@) == Seq::<ActionView>::empty());
            return v;
        }
        v.push(Action::Show(render(result, self.mode, stamp)));
        match result {
            Err(ErrorKind::ConnectionClosed) => {
                v.push(Action::Exit(0));
                self.phase = Phase::Finished;
            },
            _ => {
                self.phase = Phase::Reading;
                self.prompt_after(&mut v);
            },
        }
        assert(actions_view(v@) == reply_step(*old(self), *result, stamp@).1);
        v
    }

    /// Takes the outcome of the query that was sent, stamped with the time now.
    pub fn on_reply_now(&mut self, result: &QueryResult) -> (r: Vec<Action>)
        ensures
            exists|stamp: Seq<char>|
                (*final(self), actions_view(r@)) == reply_step(*old(self), *result, stamp),
    {
        let stamp = now_text();
        let r = self.on_reply(result, stamp.as_str());
        assert((*self, actions_view(r@)) == reply_step(*old(self), *result, stamp@));
        r
    }

    /// The input ran out: the session ends cleanly.
    pub fn on_end_of_input(&mut self) -> (r: Vec<Action>)
        ensures
            (*final(self), actions_view(r@)) == end_step(*old(self)),
    {
        let mut v: Vec<Action> = Vec::new();
        if self.phase == Phase::Reading {
            v.push(Action::Exit(0));
            self.phase = Phase::Finished;
        }
        assert(actions_view(v@) == end_step(*old(self)).1);
        v
    }

    /// Reading the input failed: the session ends with a failure code.
    pub fn on_read_failure(&mut self) -> (r: Vec<Action>)
        ensures
            (*final(self), actions_view(r@)) == failure_step(*old(self)),
    {
        let mut v: Vec<Action> = Vec::new();
        if self.phase == Phase::Reading {
            v.push(Action::Exit(1));
            self.phase = Phase::Finished;
        }
        assert(actions_view(v@) == failure_step(*old(self)).1);
        v
    }
}


/// The exit code after a single query: 1 where the connection was closed, and
/// 0 for any other outcome, which was shown to the user.
pub fn single_query_exit_code(result: &QueryResult) -> (code: i32)
    ensures
        code == if result matches Err(ErrorKind::ConnectionClosed) {
            1i32
        } else {
            0i32
        },
{
    match result {
        Err(ErrorKind::ConnectionClosed) => 1,
        _ => 0,
    }
}

/// Once the connection is reported closed, the session shows that and ends
/// with exit code 0; it shows no prompt, and nothing that comes after makes it
/// do anything more.
pub proof fn lemma_closed_connection_ends(s: Session, stamp: Seq<char>)
    requires
        s.phase == Phase::Waiting,
    ensures
        ({
            let (t, acts) = reply_step(s, Err(ErrorKind::ConnectionClosed), stamp);
            &&& t.phase == Phase::Finished
            &&& acts.last() == ActionView::Exit(0)
            &&& prompts_nothing(acts)
            &&& sends_nothing(acts)
            &&& forall|line: Seq<char>| #[trigger] line_step(t, line) == (t, Seq::<ActionView>::empty())
            &&& forall|r: QueryResult, st: Seq<char>|
                #[trigger] reply_step(t, r, st) == (t, Seq::<ActionView>::empty())
            &&& end_step(t) == (t, Seq::<ActionView>::empty())
            &&& failure_step(t) == (t, Seq::<ActionView>::empty())
        }),
{
    let (t, acts) = reply_step(s, Err(ErrorKind::ConnectionClosed), stamp);
    assert(acts.len() == 2);
}

} // verus!

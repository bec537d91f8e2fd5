//! The UI reactor's state machine.
//!
//! The reactor owns the authoritative application state. It consumes one
//! message at a time, updates the state by the transition table below,
//! and tells its caller what to do besides: dispatch a request to the
//! worker, keep receiving, or end the session.

use vstd::prelude::*;
use crate::protocol::Message;
use crate::protocol::MoveDirection;

verus! {

/// What the display currently shows.
#[derive(PartialEq, Debug)]
pub enum AppState {
    /// The branch listing with the selection cursor.
    Listing,
    /// A running checkout with its last reported progress.
    CheckingOut { progress: u16, label: String },
}

/// The reactor's authoritative application state.
#[derive(PartialEq, Debug)]
pub struct App {
    /// Index of the selected branch in the branch listing.
    pub position: usize,
    /// Which view is shown.
    pub state: AppState,
    /// Text of the last repository failure; empty when there is none.
    /// It is dismissed when the operator starts the next operation.
    pub status: String,
}

/// Mathematical model of `AppState`.
pub enum StateView {
    Listing,
    CheckingOut { progress: nat, label: Seq<char> },
}

/// Mathematical model of `App`.
pub struct AppView {
    pub position: nat,
    pub state: StateView,
    pub status: Seq<char>,
}

impl View for AppState {
    type V = StateView;

    open spec fn view(&self) -> StateView {
        match self {
            AppState::Listing => StateView::Listing,
            AppState::CheckingOut { progress, label } => StateView::CheckingOut {
                progress: *progress as nat,
                label: label@,
            },
        }
    }
}

impl View for App {
    type V = AppView;

    open spec fn view(&self) -> AppView {
        AppView { position: self.position as nat, state: self.state@, status: self.status@ }
    }
}

impl AppView {
    /// Well-formed against a branch listing of length `len`: the selection
    /// stays inside the listing, and a running checkout has not yet seen
    /// its completion report.
    pub open spec fn wf(self, len: nat) -> bool {
        &&& if len == 0 {
            self.position == 0
        } else {
            self.position < len
        }
        &&& match self.state {
            StateView::Listing => true,
            StateView::CheckingOut { progress, .. } => progress < 100,
        }
    }
}

/// What the reactor does after processing a message, besides updating
/// its state.
#[derive(PartialEq, Debug)]
pub enum Reply {
    /// Keep receiving.
    Continue,
    /// Hand this request to the worker, then keep receiving.
    Dispatch { work: Message },
    /// Clear the display and end the reactor loop.
    Quit,
}

/// Where the selection moves: one step in `direction`, clamped to the
/// ends of a listing of length `len`.
pub open spec fn move_position(position: nat, direction: MoveDirection, len: nat) -> nat {
    match direction {
        MoveDirection::Down => if position + 1 < len {
            position + 1
        } else {
            position
        },
        MoveDirection::Up => if position == 0 {
            0
        } else {
            (position - 1) as nat
        },
    }
}

/// One step of the reactor's state machine: the state after processing
/// `msg` against a branch listing of length `len`.
///
/// Moves act only while the listing is shown; the selection is frozen
/// during a checkout. A progress report at or above one hundred percent
/// returns the state to the listing. A failure report returns to the
/// listing from anywhere and records its text until the operator starts
/// the next operation. Worker requests and `Shutdown` leave the state
/// unchanged.
pub open spec fn next(app: AppView, msg: Message, len: nat) -> AppView {
    match msg {
        Message::Move { direction } => match app.state {
            StateView::Listing => AppView {
                position: move_position(app.position, direction, len),
                ..app
            },
            _ => app,
        },
        Message::Enter => match app.state {
            StateView::Listing => AppView {
                state: StateView::CheckingOut { progress: 0, label: Seq::empty() },
                status: Seq::empty(),
                ..app
            },
            _ => app,
        },
        Message::Fetch => match app.state {
            StateView::Listing => AppView { status: Seq::empty(), ..app },
            _ => app,
        },
        Message::Progress { percent, label } => match app.state {
            StateView::CheckingOut { .. } => if percent >= 100 {
                AppView { state: StateView::Listing, ..app }
            } else {
                AppView {
                    state: StateView::CheckingOut { progress: percent as nat, label: label@ },
                    ..app
                }
            },
            _ => app,
        },
        Message::Error { message } => AppView {
            state: StateView::Listing,
            status: message@,
            ..app
        },
        _ => app,
    }
}

/// The request the reactor dispatches while processing `msg`: a worker
/// request carrying the selection at dispatch time, `Quit` on shutdown,
/// `Continue` otherwise.
pub open spec fn reply_of(app: AppView, msg: Message) -> Reply {
    match msg {
        Message::Enter => match app.state {
            StateView::Listing => Reply::Dispatch {
                work: Message::Checkout { selected: app.position as usize },
            },
            _ => Reply::Continue,
        },
        Message::Fetch => match app.state {
            StateView::Listing => Reply::Dispatch {
                work: Message::FetchRequested { selected: app.position as usize },
            },
            _ => Reply::Continue,
        },
        Message::Shutdown => Reply::Quit,
        _ => Reply::Continue,
    }
}

/// Where the selection lands when the listing is re-derived with length
/// `len`: unchanged, unless the listing shrank below it.
pub open spec fn clamp_position(position: nat, len: nat) -> nat {
    if len == 0 {
        0
    } else if position < len {
        position
    } else {
        (len - 1) as nat
    }
}

/// Whether `m` is a progress report.
pub open spec fn is_progress(m: Message) -> bool {
    m is Progress
}

/// The percentage a progress report carries; zero for any other message.
pub open spec fn percent_of(m: Message) -> nat {
    match m {
        Message::Progress { percent, .. } => percent as nat,
        _ => 0,
    }
}

/// The state after the reactor processes every message of `msgs` in order.
pub open spec fn run(app: AppView, msgs: Seq<Message>, len: nat) -> AppView
    decreases msgs.len(),
{
    if msgs.len() == 0 {
        app
    } else {
        run(next(app, msgs[0], len), msgs.subrange(1, msgs.len() as int), len)
    }
}

proof fn lemma_run_push(app: AppView, msgs: Seq<Message>, m: Message, len: nat)
    ensures
        run(app, msgs.push(m), len) == next(run(app, msgs, len), m, len),
    decreases msgs.len(),
{
    let whole = msgs.push(m);
    if msgs.len() == 0 {
        assert(whole[0] == m);
        assert(whole.subrange(1, 1) =~= Seq::<Message>::empty());
        assert(run(app, whole, len) == run(next(app, m, len), whole.subrange(1, 1), len));
        assert(run(next(app, m, len), whole.subrange(1, 1), len) == next(app, m, len));
    } else {
        assert(whole[0] == msgs[0]);
        assert(whole.subrange(1, msgs.len() as int + 1) =~= msgs.subrange(
            1,
            msgs.len() as int,
        ).push(m));
        lemma_run_push(next(app, msgs[0], len), msgs.subrange(1, msgs.len() as int), m, len);
        assert(run(app, whole, len) == run(
            next(app, msgs[0], len),
            whole.subrange(1, msgs.len() as int + 1),
            len,
        ));
        assert(run(app, msgs, len) == run(
            next(app, msgs[0], len),
            msgs.subrange(1, msgs.len() as int),
            len,
        ));
    }
}

proof fn lemma_progress_noop_in_listing(app: AppView, msgs: Seq<Message>, len: nat)
    requires
        app.state is Listing,
        forall|i: int| 0 <= i < msgs.len() ==> is_progress(#[trigger] msgs[i]),
    ensures
        run(app, msgs, len) == app,
    decreases msgs.len(),
{
    if msgs.len() > 0 {
        assert(is_progress(msgs[0]));
        assert(next(app, msgs[0], len) == app);
        lemma_progress_noop_in_listing(app, msgs.subrange(1, msgs.len() as int), len);
    }
}

/// Law: for any non-empty sequence of progress reports with non-decreasing
/// percentages, fed to a reactor that is checking out, the state returns
/// to the listing if and only if the reported percentage reaches one
/// hundred; until then the gauge shows exactly the last reported
/// percentage, and it is given up — reset — exactly on that transition.
pub proof fn lemma_progress_completion(app: AppView, msgs: Seq<Message>, len: nat)
    requires
        app.wf(len),
        app.state is CheckingOut,
        msgs.len() > 0,
        forall|i: int| 0 <= i < msgs.len() ==> is_progress(#[trigger] msgs[i]),
        forall|i: int, j: int|
            0 <= i <= j < msgs.len() ==> percent_of(msgs[i]) <= percent_of(msgs[j]),
    ensures
        run(app, msgs, len).state is Listing <==> percent_of(msgs.last()) >= 100,
        run(app, msgs, len).state matches StateView::CheckingOut { progress, .. } ==> progress
            == percent_of(msgs.last()),
        run(app, msgs, len).position == app.position,
    decreases msgs.len(),
{
    let m0 = msgs[0];
    let rest = msgs.subrange(1, msgs.len() as int);
    let app1 = next(app, m0, len);
    assert(is_progress(m0));
    if msgs.len() == 1 {
        assert(rest =~= Seq::<Message>::empty());
        assert(msgs.last() == m0);
    } else {
        assert(forall|i: int| 0 <= i < rest.len() ==> is_progress(#[trigger] rest[i]));
        assert(forall|i: int, j: int|
            0 <= i <= j < rest.len() ==> percent_of(rest[i]) <= percent_of(rest[j]));
        assert(rest.last() == msgs.last());
        assert(percent_of(m0) <= percent_of(msgs.last()));
        if percent_of(m0) >= 100 {
            assert(app1.state is Listing);
            lemma_progress_noop_in_listing(app1, rest, len);
        } else {
            assert(app1.state is CheckingOut && app1.wf(len));
            lemma_progress_completion(app1, rest, len);
        }
    }
}

/// Law: every dispatched checkout ends with the reactor back at the
/// listing. Whatever progress reports the operation produced — any
/// percentages, in any number, including none — the worker's terminal
/// report of one hundred percent returns the state to the listing.
pub proof fn lemma_checkout_always_completes(
    app: AppView,
    reports: Seq<Message>,
    terminal: Message,
    len: nat,
)
    requires
        forall|i: int| 0 <= i < reports.len() ==> is_progress(#[trigger] reports[i]),
        is_progress(terminal),
        percent_of(terminal) >= 100,
    ensures
        run(app, reports.push(terminal), len).state is Listing,
{
    lemma_run_push(app, reports, terminal, len);
    let st = run(app, reports, len);
    assert(next(st, terminal, len).state is Listing);
}

impl Default for App {
    /// The state at startup: first branch selected, listing shown,
    /// nothing to report.
    fn default() -> (r: App)
        ensures
            r@.position == 0,
            r@.state is Listing,
            r@.status == Seq::<char>::empty(),
            forall|len: nat| r@.wf(len),
    {
        App { position: 0, state: AppState::Listing, status: String::new() }
    }
}

impl App {
    /// Re-aligns the selection after the branch listing is re-derived:
    /// the position is unchanged unless the listing shrank below it, in
    /// which case the selection moves to the last entry, or to the top
    /// of an empty listing. Nothing else changes.
    pub fn clamp_to(&mut self, len: usize)
        ensures
            final(self)@.position == clamp_position(old(self)@.position, len as nat),
            final(self)@.state == old(self)@.state,
            final(self)@.status == old(self)@.status,
    {
        if len == 0 {
            self.position = 0;
        } else if self.position >= len {
            self.position = len - 1;
        }
    }

    /// Processes one message: updates the state by the transition table
    /// and says what to do next. `len` is the length of the branch
    /// listing currently shown.
    ///
    /// A move past either end of the listing leaves the state exactly as
    /// it was; the two clamp clauses below state that on their own.
    pub fn handle_message(&mut self, msg: Message, len: usize) -> (r: Reply)
        requires
            old(self)@.wf(len as nat),
        ensures
            final(self)@ == next(old(self)@, msg, len as nat),
            r == reply_of(old(self)@, msg),
            final(self)@.wf(len as nat),
            (old(self)@.state is Listing && msg == (Message::Move {
                direction: MoveDirection::Down,
            }) && old(self).position + 1 >= len) ==> final(self)@ == old(self)@,
            (old(self)@.state is Listing && msg == (Message::Move {
                direction: MoveDirection::Up,
            }) && old(self).position == 0) ==> final(self)@ == old(self)@,
    {
        match msg {
            Message::Move { direction } => {
                if matches!(self.state, AppState::Listing) {
                    match direction {
                        MoveDirection::Down => {
                            if self.position + 1 < len {
                                self.position = self.position + 1;
                            }
                        },
                        MoveDirection::Up => {
                            if self.position > 0 {
                                self.position = self.position - 1;
                            }
                        },
                    }
                }
                Reply::Continue
            },
            Message::Enter => {
                if matches!(self.state, AppState::Listing) {
                    self.state = AppState::CheckingOut { progress: 0, label: String::new() };
                    self.status = String::new();
                    Reply::Dispatch { work: Message::Checkout { selected: self.position } }
                } else {
                    Reply::Continue
                }
            },
            Message::Fetch => {
                if matches!(self.state, AppState::Listing) {
                    self.status = String::new();
                    Reply::Dispatch { work: Message::FetchRequested { selected: self.position } }
                } else {
                    Reply::Continue
                }
            },
            Message::Progress { percent, label } => {
                if matches!(self.state, AppState::CheckingOut { .. }) {
                    if percent >= 100 {
                        self.state = AppState::Listing;
                    } else {
                        self.state = AppState::CheckingOut { progress: percent, label };
                    }
                }
                Reply::Continue
            },
            Message::Error { message } => {
                self.state = AppState::Listing;
                self.status = message;
                Reply::Continue
            },
            Message::Shutdown => Reply::Quit,
            _ => Reply::Continue,
        }
    }
}

} // verus!

//! Bringing the server to the workspace that is wanted.
//!
//! The engine is a state machine. It is handed what became of the last
//! operation, together with a fresh view of the server, and answers with the
//! next operation. It creates what is missing, in order, and leaves alone what
//! is already there.

use vstd::prelude::*;
use vstd::string::*;
use crate::client::{
    focus_operation, select_attachment, MultiplexerError, MultiplexerErrorView, Operation,
    OperationView,
};
use crate::names::{clean, clean_str};
use crate::snapshot::Snapshot;
use crate::target::{Target, TargetView};
use crate::workspace::WorkSpace;

verus! {

/// The steps of a reconciliation, by which a failure is told.
#[derive(Debug, Clone, Copy, PartialEq, Eq, Structural)]
pub enum Step {
    /// Reading the server's state before anything is changed.
    Inspect,
    Session,
    Window,
    Split,
    Layout,
    SendKeys,
    Cleanup,
    Attach,
}

/// A step of the reconciliation failed. What had been created by then stays.
#[derive(Debug, Clone)]
pub struct ReconciliationError {
    pub step: Step,
    pub cause: MultiplexerError,
}

/// What the engine is waiting for.
#[derive(Debug, Clone, Copy)]
pub enum Phase {
    /// The first view of the server.
    Inspecting,
    /// The outcome of creating the session.
    CreatingSession,
    /// The outcome of creating the window.
    CreatingWindow,
    /// The outcome of a split.
    Splitting,
    /// The outcome of applying the layout.
    ApplyingLayout,
    /// The outcome of sending the command at position `index`.
    Sending { index: usize },
    /// The outcome of removing the window that came with a new session.
    Cleaning,
    /// The outcome of focusing the terminal on the window.
    Attaching,
    /// Nothing: the reconciliation has ended.
    Finished,
}

impl Phase {
    /// The step whose outcome is awaited in this phase; once the
    /// reconciliation has ended, the last one.
    pub open spec fn step(self) -> Step {
        match self {
            Phase::Inspecting => Step::Inspect,
            Phase::CreatingSession => Step::Session,
            Phase::CreatingWindow => Step::Window,
            Phase::Splitting => Step::Split,
            Phase::ApplyingLayout => Step::Layout,
            Phase::Sending { .. } => Step::SendKeys,
            Phase::Cleaning => Step::Cleanup,
            Phase::Attaching => Step::Attach,
            Phase::Finished => Step::Attach,
        }
    }
}

/// What became of the last operation.
#[derive(Debug, Clone)]
pub enum Event {
    /// It succeeded, and this is the server as it is now. At the start, when
    /// no operation has been asked for yet, this is the first view.
    Completed(Snapshot),
    /// It failed.
    Failed(MultiplexerError),
}

/// What the caller is to do next.
#[derive(Debug, Clone)]
pub enum Next {
    /// Perform the operation, and report its outcome.
    Perform(Operation),
    /// The workspace stands and the terminal was focused on it.
    Done,
    /// A step failed; nothing more is attempted.
    Abort(ReconciliationError),
    /// The reconciliation had already ended.
    Idle,
}

/// The mathematical value of a [`Next`].
pub ghost enum NextView {
    Perform(OperationView),
    Done,
    Abort { step: Step, cause: MultiplexerErrorView },
    Idle,
}

impl View for Next {
    type V = NextView;

    open spec fn view(&self) -> NextView {
        match *self {
            Next::Perform(operation) => NextView::Perform(operation@),
            Next::Done => NextView::Done,
            Next::Abort(error) => NextView::Abort { step: error.step, cause: error.cause@ },
            Next::Idle => NextView::Idle,
        }
    }
}

/// One reconciliation under way.
#[derive(Debug, Clone)]
pub struct Engine {
    /// The workspace that is wanted. It never changes.
    pub request: WorkSpace,
    /// Whether the caller already runs inside a client of the multiplexer.
    pub inside_client: bool,
    pub phase: Phase,
    /// The window that the server put into the session this engine created,
    /// as long as it still has to be removed.
    pub placeholder: Option<String>,
    /// The positions of the commands that were not sent because the window
    /// had no pane with that index.
    pub skipped: Vec<usize>,
}

/// The part of an [`Engine`] that changes from step to step.
pub ghost struct EngineView {
    pub phase: Phase,
    pub placeholder: Option<Seq<char>>,
    pub skipped: Seq<usize>,
}

impl View for Engine {
    type V = EngineView;

    open spec fn view(&self) -> EngineView {
        EngineView {
            phase: self.phase,
            placeholder: match self.placeholder {
                Some(name) => Some(name@),
                None => None,
            },
            skipped: self.skipped@,
        }
    }
}

/// The state in which every reconciliation starts.
pub open spec fn initial() -> EngineView {
    EngineView { phase: Phase::Inspecting, placeholder: None, skipped: Seq::empty() }
}

/// The name under which the session is created and addressed.
pub open spec fn session_of(request: WorkSpace) -> Seq<char> {
    clean(request.session_name@)
}

/// The name under which the window is created and addressed.
pub open spec fn window_of(request: WorkSpace) -> Seq<char> {
    clean(request.spec_window_name())
}

/// The wanted window, or one of its panes.
pub open spec fn window_target(request: WorkSpace, pane: Option<usize>) -> TargetView {
    TargetView { session: session_of(request), window: window_of(request), pane }
}

/// The number of panes that the snapshot shows in the wanted window. A window
/// that the snapshot does not show has none.
pub open spec fn pane_count_in(snapshot: Snapshot, request: WorkSpace) -> nat {
    match snapshot.spec_find_window(request.session_name@, request.spec_window_name()) {
        Some(window) => window.panes@.len(),
        None => 0,
    }
}

/// Whether the snapshot shows a pane with this index in the wanted window.
pub open spec fn pane_present(snapshot: Snapshot, request: WorkSpace, index: usize) -> bool {
    match snapshot.spec_find_window(request.session_name@, request.spec_window_name()) {
        Some(window) => window.spec_has_pane(index),
        None => false,
    }
}

/// The name of the first window that the snapshot shows in the wanted
/// session: in a session that was just created, the window the server made.
pub open spec fn placeholder_in(snapshot: Snapshot, request: WorkSpace) -> Option<Seq<char>> {
    match snapshot.spec_find_session(request.session_name@) {
        Some(session) => if session.windows@.len() > 0 {
            Some(session.windows@[0].name@)
        } else {
            None
        },
        None => None,
    }
}

/// The first position from `from` on whose command has its pane in the
/// snapshot; the number of commands where there is none.
pub open spec fn next_dispatch(snapshot: Snapshot, request: WorkSpace, from: nat) -> nat
    decreases request.commands@.len() - from,
{
    if from >= request.commands@.len() {
        request.commands@.len()
    } else if pane_present(snapshot, request, from as usize) {
        from
    } else {
        next_dispatch(snapshot, request, from + 1)
    }
}

/// The positions from `from` up to `to`, `to` left out.
pub open spec fn positions(from: nat, to: nat) -> Seq<usize> {
    Seq::new((to - from) as nat, |i: int| (from + i) as usize)
}

/// What is typed into the pane for a command: its text, then the enter key.
pub open spec fn keys_for(command: Seq<char>) -> Seq<char> {
    command.push('\r')
}

/// Whether a window that came with a new session still has to go: there is
/// one, and it is not addressed as the wanted window is.
pub open spec fn must_clean(request: WorkSpace, placeholder: Option<Seq<char>>) -> bool {
    placeholder matches Some(name) && clean(name) != window_of(request)
}

/// The end of a reconciliation: the leftover window is removed where there
/// is one, else the terminal is focused on pane 0 of the wanted window.
pub open spec fn wind_up(request: WorkSpace, inside_client: bool, state: EngineView) -> (
    EngineView,
    NextView,
) {
    if must_clean(request, state.placeholder) {
        (
            EngineView { phase: Phase::Cleaning, ..state },
            NextView::Perform(
                OperationView::KillWindow {
                    target: TargetView {
                        session: session_of(request),
                        window: state.placeholder.unwrap(),
                        pane: None,
                    },
                },
            ),
        )
    } else {
        focus(request, inside_client, state)
    }
}

/// Focusing the terminal on pane 0 of the wanted window. No window is left
/// to remove by then.
pub open spec fn focus(request: WorkSpace, inside_client: bool, state: EngineView) -> (
    EngineView,
    NextView,
) {
    (
        EngineView { phase: Phase::Attaching, placeholder: None, ..state },
        NextView::Perform(focus_operation(inside_client, window_target(request, Some(0usize)))),
    )
}

/// Sending the next command that has its pane, from position `from` on. The
/// positions passed over are noted as skipped. Where no command is left, the
/// reconciliation winds up.
pub open spec fn dispatch(
    request: WorkSpace,
    inside_client: bool,
    state: EngineView,
    snapshot: Snapshot,
    from: nat,
) -> (EngineView, NextView) {
    let index = next_dispatch(snapshot, request, from);
    let noted = EngineView { skipped: state.skipped + positions(from, index), ..state };
    if index < request.commands@.len() {
        (
            EngineView { phase: Phase::Sending { index: index as usize }, ..noted },
            NextView::Perform(
                OperationView::SendKeys {
                    target: window_target(request, Some(index as usize)),
                    keys: keys_for(request.commands@[index as int]@),
                },
            ),
        )
    } else {
        wind_up(request, inside_client, noted)
    }
}

/// Growing the window: one more split as long as the snapshot shows fewer
/// panes than are required, then the layout.
pub open spec fn grow(request: WorkSpace, state: EngineView, snapshot: Snapshot) -> (
    EngineView,
    NextView,
) {
    if pane_count_in(snapshot, request) < request.required_panes() {
        (
            EngineView { phase: Phase::Splitting, ..state },
            NextView::Perform(
                OperationView::SplitWindow {
                    target: window_target(request, None),
                    directory: request.path@,
                },
            ),
        )
    } else {
        (
            EngineView { phase: Phase::ApplyingLayout, ..state },
            NextView::Perform(
                OperationView::SelectLayout {
                    target: window_target(request, Some(0usize)),
                    layout: request.format_checksum@,
                },
            ),
        )
    }
}

/// Creating the wanted window in its session.
pub open spec fn create_window(request: WorkSpace, state: EngineView) -> (EngineView, NextView) {
    (
        EngineView { phase: Phase::CreatingWindow, ..state },
        NextView::Perform(
            OperationView::NewWindow {
                session: session_of(request),
                window: window_of(request),
                directory: request.path@,
            },
        ),
    )
}

/// The step taken on a fresh view of the server.
pub open spec fn on_snapshot(
    request: WorkSpace,
    inside_client: bool,
    state: EngineView,
    snapshot: Snapshot,
) -> (EngineView, NextView) {
    let window = snapshot.spec_find_window(request.session_name@, request.spec_window_name());
    match state.phase {
        Phase::Inspecting => {
            if snapshot.spec_find_session(request.session_name@) is None {
                (
                    EngineView { phase: Phase::CreatingSession, ..state },
                    NextView::Perform(
                        OperationView::NewSession {
                            session: session_of(request),
                            directory: request.path@,
                        },
                    ),
                )
            } else if window is Some {
                focus(request, inside_client, state)
            } else {
                create_window(request, state)
            }
        },
        Phase::CreatingSession => {
            let noted = EngineView { placeholder: placeholder_in(snapshot, request), ..state };
            if window is Some {
                wind_up(request, inside_client, noted)
            } else {
                create_window(request, noted)
            }
        },
        Phase::CreatingWindow => grow(request, state, snapshot),
        Phase::Splitting => grow(request, state, snapshot),
        Phase::ApplyingLayout => dispatch(request, inside_client, state, snapshot, 0),
        Phase::Sending { index } => dispatch(
            request,
            inside_client,
            state,
            snapshot,
            (index + 1) as nat,
        ),
        Phase::Cleaning => focus(request, inside_client, state),
        Phase::Attaching => (EngineView { phase: Phase::Finished, ..state }, NextView::Done),
        Phase::Finished => (state, NextView::Idle),
    }
}

/// One step of the reconciliation: from the state and what became of the
/// last operation to the next state and what to do next.
///
/// A failure ends the reconciliation at once, and names the step that was
/// under way. Nothing is retried and nothing is undone.
pub open spec fn spec_step(
    request: WorkSpace,
    inside_client: bool,
    state: EngineView,
    event: Event,
) -> (EngineView, NextView) {
    match event {
        Event::Completed(snapshot) => on_snapshot(request, inside_client, state, snapshot),
        Event::Failed(cause) => match state.phase {
            Phase::Finished => (state, NextView::Idle),
            _ => (
                EngineView { phase: Phase::Finished, ..state },
                NextView::Abort { step: state.phase.step(), cause: cause@ },
            ),
        },
    }
}

impl Engine {
    /// What every step keeps: the window has a name, and a command that is
    /// being sent is one of the request's.
    pub open spec fn wf(&self) -> bool {
        &&& self.request.has_window_name()
        &&& self.phase matches Phase::Sending { index } ==> index < self.request.commands@.len()
    }

    /// An engine for `request`, before the first view of the server.
    pub fn new(request: WorkSpace, inside_client: bool) -> (out: Engine)
        requires
            request.has_window_name(),
        ensures
            out.wf(),
            out.request == request,
            out.inside_client == inside_client,
            out@ == initial(),
    {
        Engine {
            request,
            inside_client,
            phase: Phase::Inspecting,
            placeholder: None,
            skipped: Vec::new(),
        }
    }

    /// Whether the reconciliation has ended.
    pub fn is_finished(&self) -> (out: bool)
        ensures
            out == (self.phase is Finished),
    {
        match self.phase {
            Phase::Finished => true,
            _ => false,
        }
    }

    fn window_target(&self, pane: Option<usize>) -> (out: Target)
        requires
            self.request.has_window_name(),
        ensures
            out@ == window_target(self.request, pane),
    {
        let window = self.request.window_name();
        Target {
            session: clean_str(self.request.session_name.as_str()),
            window: clean_str(window.as_str()),
            pane,
        }
    }

    fn focus(self) -> (out: (Engine, Next))
        requires
            self.request.has_window_name(),
        ensures
            out.0.wf(),
            out.0.request == self.request,
            out.0.inside_client == self.inside_client,
            (out.0@, out.1@) == focus(self.request, self.inside_client, self@),
    {
        let mut engine = self;
        let target = engine.window_target(Some(0));
        engine.phase = Phase::Attaching;
        engine.placeholder = None;
        let operation = select_attachment(engine.inside_client, target);
        (engine, Next::Perform(operation))
    }

    fn leftover(&self) -> (out: Option<String>)
        requires
            self.request.has_window_name(),
        ensures
            out is Some <==> must_clean(self.request, self@.placeholder),
            out matches Some(name) ==> self@.placeholder == Some(name@),
    {
        match &self.placeholder {
            Some(name) => {
                let window = self.request.window_name();
                if clean_str(name.as_str()) != clean_str(window.as_str()) {
                    Some(name.clone())
                } else {
                    None
                }
            },
            None => None,
        }
    }

    fn wind_up(self) -> (out: (Engine, Next))
        requires
            self.request.has_window_name(),
        ensures
            out.0.wf(),
            out.0.request == self.request,
            out.0.inside_client == self.inside_client,
            (out.0@, out.1@) == wind_up(self.request, self.inside_client, self@),
    {
        match self.leftover() {
            Some(window) => {
                let mut engine = self;
                let target = Target {
                    session: clean_str(engine.request.session_name.as_str()),
                    window,
                    pane: None,
                };
                engine.phase = Phase::Cleaning;
                (engine, Next::Perform(Operation::KillWindow { target }))
            },
            None => self.focus(),
        }
    }

    fn create_window(self) -> (out: (Engine, Next))
        requires
            self.request.has_window_name(),
        ensures
            out.0.wf(),
            out.0.request == self.request,
            out.0.inside_client == self.inside_client,
            (out.0@, out.1@) == create_window(self.request, self@),
    {
        let mut engine = self;
        let window = engine.request.window_name();
        let operation = Operation::NewWindow {
            session: clean_str(engine.request.session_name.as_str()),
            window: clean_str(window.as_str()),
            directory: engine.request.path_str(),
        };
        engine.phase = Phase::CreatingWindow;
        (engine, Next::Perform(operation))
    }

    fn grow(self, snapshot: &Snapshot) -> (out: (Engine, Next))
        requires
            self.request.has_window_name(),
        ensures
            out.0.wf(),
            out.0.request == self.request,
            out.0.inside_client == self.inside_client,
            (out.0@, out.1@) == grow(self.request, self@, *snapshot),
    {
        let mut engine = self;
        let window = engine.request.window_name();
        let shown: usize = match snapshot.find_window(
            engine.request.session_name.as_str(),
            window.as_str(),
        ) {
            Some(found) => found.pane_count(),
            None => 0,
        };
        if shown < engine.request.number_of_panes() {
            let target = engine.window_target(None);
            let directory = engine.request.path_str();
            engine.phase = Phase::Splitting;
            (engine, Next::Perform(Operation::SplitWindow { target, directory }))
        } else {
            let target = engine.window_target(Some(0));
            let layout = engine.request.format_checksum.clone();
            engine.phase = Phase::ApplyingLayout;
            (engine, Next::Perform(Operation::SelectLayout { target, layout }))
        }
    }

    fn dispatch(self, snapshot: &Snapshot, from: usize) -> (out: (Engine, Next))
        requires
            self.request.has_window_name(),
            from <= self.request.commands@.len(),
        ensures
            out.0.wf(),
            out.0.request == self.request,
            out.0.inside_client == self.inside_client,
            (out.0@, out.1@) == dispatch(
                self.request,
                self.inside_client,
                self@,
                *snapshot,
                from as nat,
            ),
    {
        let ghost before = self;
        let mut engine = self;
        let count: usize = engine.request.commands.len();
        let window = engine.request.window_name();
        let shown = snapshot.find_window(engine.request.session_name.as_str(), window.as_str());
        let mut index: usize = from;
        let mut searching = true;
        while searching && index < count
            invariant
                from <= index <= count,
                count == before.request.commands@.len(),
                engine.request == before.request,
                engine.inside_client == before.inside_client,
                engine.phase == before.phase,
                engine.placeholder == before.placeholder,
                engine.skipped@ == before.skipped@ + positions(from as nat, index as nat),
                shown is Some <==> snapshot.spec_find_window(
                    before.request.session_name@,
                    before.request.spec_window_name(),
                ) is Some,
                shown matches Some(found) ==> Some(*found) == snapshot.spec_find_window(
                    before.request.session_name@,
                    before.request.spec_window_name(),
                ),
                next_dispatch(*snapshot, before.request, from as nat) == next_dispatch(
                    *snapshot,
                    before.request,
                    index as nat,
                ),
                !searching ==> index < count && pane_present(*snapshot, before.request, index),
            decreases count - index + (if searching { 1int } else { 0int }),
        {
            let present = match shown {
                Some(found) => found.has_pane(index),
                None => false,
            };
            if present {
                searching = false;
            } else {
                engine.skipped.push(index);
                index += 1;
                assert(engine.skipped@ =~= before.skipped@ + positions(from as nat, index as nat));
            }
        }
        if index < count {
            let target = engine.window_target(Some(index));
            let mut keys = engine.request.commands[index].clone();
            proof {
                reveal_strlit("\r");
            }
            keys.append("\r");
            assert(keys@ =~= keys_for(before.request.commands@[index as int]@));
            engine.phase = Phase::Sending { index };
            (engine, Next::Perform(Operation::SendKeys { target, keys }))
        } else {
            engine.wind_up()
        }
    }

    /// Takes one step: from what became of the last operation to what comes
    /// next. The first event of a reconciliation is the first view of the
    /// server.
    pub fn step(self, event: Event) -> (out: (Engine, Next))
        requires
            self.wf(),
        ensures
            out.0.wf(),
            out.0.request == self.request,
            out.0.inside_client == self.inside_client,
            (out.0@, out.1@) == spec_step(self.request, self.inside_client, self@, event),
    {
        match event {
            Event::Failed(cause) => {
                let mut engine = self;
                let step = match engine.phase {
                    Phase::Inspecting => Step::Inspect,
                    Phase::CreatingSession => Step::Session,
                    Phase::CreatingWindow => Step::Window,
                    Phase::Splitting => Step::Split,
                    Phase::ApplyingLayout => Step::Layout,
                    Phase::Sending { .. } => Step::SendKeys,
                    Phase::Cleaning => Step::Cleanup,
                    Phase::Attaching => Step::Attach,
                    Phase::Finished => {
                        return (engine, Next::Idle);
                    },
                };
                engine.phase = Phase::Finished;
                (engine, Next::Abort(ReconciliationError { step, cause }))
            },
            Event::Completed(snapshot) => self.on_snapshot(&snapshot),
        }
    }

    fn on_snapshot(self, snapshot: &Snapshot) -> (out: (Engine, Next))
        requires
            self.wf(),
        ensures
            out.0.wf(),
            out.0.request == self.request,
            out.0.inside_client == self.inside_client,
            (out.0@, out.1@) == on_snapshot(self.request, self.inside_client, self@, *snapshot),
    {
        let mut engine = self;
        match engine.phase {
            Phase::Inspecting => {
                let session = snapshot.find_session(engine.request.session_name.as_str());
                match session {
                    None => {
                        let operation = Operation::NewSession {
                            session: clean_str(engine.request.session_name.as_str()),
                            directory: engine.request.path_str(),
                        };
                        engine.phase = Phase::CreatingSession;
                        (engine, Next::Perform(operation))
                    },
                    Some(found) => {
                        let window = engine.request.window_name();
                        if found.find_window(window.as_str()).is_some() {
                            engine.focus()
                        } else {
                            engine.create_window()
                        }
                    },
                }
            },
            Phase::CreatingSession => {
                let session = snapshot.find_session(engine.request.session_name.as_str());
                let window = engine.request.window_name();
                match session {
                    Some(found) => {
                        if found.windows.len() > 0 {
                            engine.placeholder = Some(found.windows[0].name.clone());
                        } else {
                            engine.placeholder = None;
                        }
                        if found.find_window(window.as_str()).is_some() {
                            engine.wind_up()
                        } else {
                            engine.create_window()
                        }
                    },
                    None => {
                        engine.placeholder = None;
                        engine.create_window()
                    },
                }
            },
            Phase::CreatingWindow => engine.grow(snapshot),
            Phase::Splitting => engine.grow(snapshot),
            Phase::ApplyingLayout => engine.dispatch(snapshot, 0),
            Phase::Sending { index } => {
                let count: usize = engine.request.commands.len();
                assert(index < count);
                engine.dispatch(snapshot, index + 1)
            },
            Phase::Cleaning => engine.focus(),
            Phase::Attaching => {
                engine.phase = Phase::Finished;
                (engine, Next::Done)
            },
            Phase::Finished => (engine, Next::Idle),
        }
    }
}

} // verus!

//! The primitive operations that change the server or hand the terminal to
//! it, and how one of them can fail.
//!
//! The library only names an operation. The caller performs it and reports
//! back what came of it.

use vstd::prelude::*;
use crate::target::{Target, TargetView};

verus! {

/// A primitive operation did not succeed.
#[derive(Debug, Clone)]
pub struct MultiplexerError {
    /// The exit status of the call, where it ended with one.
    pub status: Option<i32>,
    /// What the call wrote to its error stream, as it came.
    pub stderr: String,
}

/// The mathematical value of a [`MultiplexerError`].
pub ghost struct MultiplexerErrorView {
    pub status: Option<i32>,
    pub stderr: Seq<char>,
}

impl View for MultiplexerError {
    type V = MultiplexerErrorView;

    open spec fn view(&self) -> MultiplexerErrorView {
        MultiplexerErrorView { status: self.status, stderr: self.stderr@ }
    }
}

/// One primitive operation on the server.
#[derive(Debug, Clone)]
pub enum Operation {
    /// Create a detached session, rooted at `directory`. The server gives it
    /// one window, which it names itself.
    NewSession { session: String, directory: String },
    /// Create a detached window in a session, rooted at `directory`.
    NewWindow { session: String, window: String, directory: String },
    /// Split the target window once; the new pane starts in `directory`.
    SplitWindow { target: Target, directory: String },
    /// Arrange the panes of the target's window by a layout descriptor.
    SelectLayout { target: Target, layout: String },
    /// Type `keys` into the target pane.
    SendKeys { target: Target, keys: String },
    /// Remove the target window.
    KillWindow { target: Target },
    /// Attach the terminal to the target. This lasts as long as the
    /// interactive session does.
    AttachSession { target: Target },
    /// Point the client that the caller already runs in at the target.
    SwitchClient { target: Target },
}

/// The mathematical value of an [`Operation`].
pub ghost enum OperationView {
    NewSession { session: Seq<char>, directory: Seq<char> },
    NewWindow { session: Seq<char>, window: Seq<char>, directory: Seq<char> },
    SplitWindow { target: TargetView, directory: Seq<char> },
    SelectLayout { target: TargetView, layout: Seq<char> },
    SendKeys { target: TargetView, keys: Seq<char> },
    KillWindow { target: TargetView },
    AttachSession { target: TargetView },
    SwitchClient { target: TargetView },
}

impl View for Operation {
    type V = OperationView;

    open spec fn view(&self) -> OperationView {
        match *self {
            Operation::NewSession { session, directory } => OperationView::NewSession {
                session: session@,
                directory: directory@,
            },
            Operation::NewWindow { session, window, directory } => OperationView::NewWindow {
                session: session@,
                window: window@,
                directory: directory@,
            },
            Operation::SplitWindow { target, directory } => OperationView::SplitWindow {
                target: target@,
                directory: directory@,
            },
            Operation::SelectLayout { target, layout } => OperationView::SelectLayout {
                target: target@,
                layout: layout@,
            },
            Operation::SendKeys { target, keys } => OperationView::SendKeys {
                target: target@,
                keys: keys@,
            },
            Operation::KillWindow { target } => OperationView::KillWindow { target: target@ },
            Operation::AttachSession { target } => OperationView::AttachSession {
                target: target@,
            },
            Operation::SwitchClient { target } => OperationView::SwitchClient { target: target@ },
        }
    }
}

impl OperationView {
    /// Whether the operation focuses the terminal on a target.
    pub open spec fn is_focus(self) -> bool {
        self is AttachSession || self is SwitchClient
    }
}

/// The operation that focuses the terminal on `target`: a switch of the
/// running client where the caller is inside one, else an attach.
pub open spec fn focus_operation(inside_client: bool, target: TargetView) -> OperationView {
    if inside_client {
        OperationView::SwitchClient { target }
    } else {
        OperationView::AttachSession { target }
    }
}

/// Chooses how to focus the terminal on `target`. Inside a client the client
/// is switched in place; outside of any, the terminal is attached.
pub fn select_attachment(inside_client: bool, target: Target) -> (out: Operation)
    ensures
        out@ == focus_operation(inside_client, target@),
        inside_client ==> out@ is SwitchClient,
        !inside_client ==> out@ is AttachSession,
{
    if inside_client {
        Operation::SwitchClient { target }
    } else {
        Operation::AttachSession { target }
    }
}

} // verus!

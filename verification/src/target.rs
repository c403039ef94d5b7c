//! Addresses of sessions, windows and panes in the multiplexer's own syntax,
//! `session:window` or `session:window.pane`.

use vstd::prelude::*;
use vstd::string::*;
use crate::names::{clean, clean_str, decimal, decimal_string, is_clean};

verus! {

/// A session, a window in it and, where one pane is meant, the pane's index.
///
/// The names are kept as they were given. They are normalized when the target
/// is written out, so every address is built by the same rule.
#[derive(Debug, Clone)]
pub struct Target {
    pub session: String,
    pub window: String,
    pub pane: Option<usize>,
}

/// The mathematical value of a [`Target`].
pub ghost struct TargetView {
    pub session: Seq<char>,
    pub window: Seq<char>,
    pub pane: Option<usize>,
}

impl View for Target {
    type V = TargetView;

    open spec fn view(&self) -> TargetView {
        TargetView { session: self.session@, window: self.window@, pane: self.pane }
    }
}

/// The text that addresses a pane inside its window: nothing where the whole
/// window is meant, else a `.` and the index in decimal.
pub open spec fn pane_suffix(pane: Option<usize>) -> Seq<char> {
    match pane {
        Some(index) => seq!['.'] + decimal(index as nat),
        None => Seq::empty(),
    }
}

/// The address of a target: the normalized session name, `:`, the normalized
/// window name, and the pane's suffix.
pub open spec fn address(session: Seq<char>, window: Seq<char>, pane: Option<usize>) -> Seq<char> {
    clean(session) + seq![':'] + clean(window) + pane_suffix(pane)
}

impl TargetView {
    /// The address this target is written as.
    pub open spec fn address(self) -> Seq<char> {
        address(self.session, self.window, self.pane)
    }
}

impl Target {
    /// Writes the target in the multiplexer's addressing syntax.
    pub fn serialize(&self) -> (out: String)
        ensures
            out@ == self@.address(),
    {
        write_address(self.session.as_str(), self.window.as_str(), self.pane)
    }
}

/// Writes the address of the given session, window and pane.
pub fn write_address(session: &str, window: &str, pane: Option<usize>) -> (out: String)
    ensures
        out@ == address(session@, window@, pane),
{
    proof {
        reveal_strlit(":");
        reveal_strlit(".");
    }
    let mut out = clean_str(session);
    out.append(":");
    let window_part = clean_str(window);
    out.append(window_part.as_str());
    match pane {
        Some(index) => {
            out.append(".");
            let digits = decimal_string(index);
            out.append(digits.as_str());
            assert(out@ =~= address(session@, window@, pane));
        },
        None => {
            assert(out@ =~= address(session@, window@, pane));
        },
    }
    out
}

/// In an address the names hold no `.`: the text in front of the pane's
/// suffix is free of it, so a `.` in an address always introduces a pane.
pub proof fn lemma_address_names_hold_no_dot(
    session: Seq<char>,
    window: Seq<char>,
    pane: Option<usize>,
)
    ensures
        address(session, window, pane).len() == session.len() + 1 + window.len() + pane_suffix(
            pane,
        ).len(),
        forall|i: int|
            0 <= i < session.len() + 1 + window.len() ==> address(session, window, pane)[i] != '.'
                && address(session, window, pane)[i] != ' ',
        address(session, window, pane)[session.len() as int] == ':',
{
    let a = address(session, window, pane);
    assert forall|i: int| 0 <= i < session.len() + 1 + window.len() implies a[i] != '.' && a[i]
        != ' ' by {
        if i < session.len() {
            assert(a[i] == clean(session)[i]);
        } else if i == session.len() {
            assert(a[i] == ':');
        } else {
            assert(a[i] == clean(window)[i - session.len() - 1]);
        }
    }
}

/// Names that are already normalized stand in the address unchanged.
pub proof fn lemma_address_of_clean_names(
    session: Seq<char>,
    window: Seq<char>,
    pane: Option<usize>,
)
    requires
        is_clean(session),
        is_clean(window),
    ensures
        address(session, window, pane) == session + seq![':'] + window + pane_suffix(pane),
{
    crate::names::lemma_clean_idempotent(session);
    crate::names::lemma_clean_idempotent(window);
}

} // verus!

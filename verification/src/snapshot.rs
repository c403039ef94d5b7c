//! A view of the server at one instant: its sessions, their windows, and the
//! panes of each window.
//!
//! A snapshot is only read. After an operation that changes what the server
//! holds, a new one is taken.

use vstd::prelude::*;
use vstd::string::*;
use crate::names::{clean, clean_str, lemma_clean_idempotent};

verus! {

/// A pane, known by its index inside its window.
#[derive(Debug, Clone)]
pub struct PaneView {
    pub index: usize,
}

/// A window and its panes.
#[derive(Debug, Clone)]
pub struct WindowView {
    pub name: String,
    pub panes: Vec<PaneView>,
}

/// A session and its windows, in the server's order.
#[derive(Debug, Clone)]
pub struct SessionView {
    pub name: String,
    pub windows: Vec<WindowView>,
}

/// The sessions of the server, in the server's order.
#[derive(Debug, Clone)]
pub struct Snapshot {
    pub sessions: Vec<SessionView>,
}

/// `i` is the first position of `names` that holds `name`.
pub open spec fn is_first(names: Seq<Seq<char>>, name: Seq<char>, i: int) -> bool {
    &&& 0 <= i < names.len()
    &&& names[i] == name
    &&& forall|j: int| 0 <= j < i ==> #[trigger] names[j] != name
}

/// The first position of `names` that holds `name`, if one does.
pub open spec fn first_index(names: Seq<Seq<char>>, name: Seq<char>) -> Option<int> {
    if exists|i: int| is_first(names, name, i) {
        Some(choose|i: int| is_first(names, name, i))
    } else {
        None
    }
}

/// There is one first position at most: where `i` is one, the lookup gives it.
pub proof fn lemma_first_index_found(names: Seq<Seq<char>>, name: Seq<char>, i: int)
    requires
        is_first(names, name, i),
    ensures
        first_index(names, name) == Some(i),
{
    let k = choose|k: int| is_first(names, name, k);
    if k < i {
        assert(names[k] != name);
    } else if i < k {
        assert(names[i] != name);
    }
}

/// Where no position holds `name`, the lookup gives nothing.
pub proof fn lemma_first_index_absent(names: Seq<Seq<char>>, name: Seq<char>)
    requires
        forall|j: int| 0 <= j < names.len() ==> #[trigger] names[j] != name,
    ensures
        first_index(names, name) is None,
{
}

/// A name that occurs somewhere has a first position.
pub proof fn lemma_first_index_exists(names: Seq<Seq<char>>, name: Seq<char>, k: int)
    requires
        0 <= k < names.len(),
        names[k] == name,
    ensures
        first_index(names, name) is Some,
        names[first_index(names, name).unwrap()] == name,
        first_index(names, name).unwrap() <= k,
    decreases k,
{
    if forall|j: int| 0 <= j < k ==> #[trigger] names[j] != name {
        assert(is_first(names, name, k));
        lemma_first_index_found(names, name, k);
    } else {
        let j = choose|j: int| 0 <= j < k && #[trigger] names[j] == name;
        lemma_first_index_exists(names, name, j);
    }
}

/// The names of some windows, in their order.
pub open spec fn window_names(windows: Seq<WindowView>) -> Seq<Seq<char>> {
    Seq::new(windows.len(), |i: int| windows[i].name@)
}

/// The names of some sessions, in their order.
pub open spec fn session_names(sessions: Seq<SessionView>) -> Seq<Seq<char>> {
    Seq::new(sessions.len(), |i: int| sessions[i].name@)
}

impl WindowView {
    /// Whether the window has a pane with this index.
    pub open spec fn spec_has_pane(&self, index: usize) -> bool {
        exists|k: int| 0 <= k < self.panes@.len() && (#[trigger] self.panes@[k]).index == index
    }

    /// The number of panes of the window.
    pub fn pane_count(&self) -> (out: usize)
        ensures
            out == self.panes@.len(),
    {
        self.panes.len()
    }

    /// Tells whether the window has a pane with this index.
    pub fn has_pane(&self, index: usize) -> (out: bool)
        ensures
            out == self.spec_has_pane(index),
    {
        let mut k: usize = 0;
        while k < self.panes.len()
            invariant
                k <= self.panes@.len(),
                forall|j: int| 0 <= j < k ==> (#[trigger] self.panes@[j]).index != index,
            decreases self.panes@.len() - k,
        {
            if self.panes[k].index == index {
                return true;
            }
            k += 1;
        }
        false
    }
}

impl SessionView {
    /// The first window of the session whose name is the normalized form of
    /// `name`.
    pub open spec fn spec_find_window(&self, name: Seq<char>) -> Option<WindowView> {
        match first_index(window_names(self.windows@), clean(name)) {
            Some(i) => Some(self.windows@[i]),
            None => None,
        }
    }

    /// Looks a window up by name. The name is normalized first, as it is when
    /// a window is created, so it may be given as it was typed.
    pub fn find_window(&self, name: &str) -> (out: Option<&WindowView>)
        ensures
            out is Some <==> self.spec_find_window(name@) is Some,
            out matches Some(window) ==> Some(*window) == self.spec_find_window(name@),
    {
        let key = clean_str(name);
        let mut i: usize = 0;
        while i < self.windows.len()
            invariant
                i <= self.windows@.len(),
                key@ == clean(name@),
                forall|j: int|
                    0 <= j < i ==> #[trigger] window_names(self.windows@)[j] != clean(name@),
            decreases self.windows@.len() - i,
        {
            if self.windows[i].name == key {
                proof {
                    assert(window_names(self.windows@)[i as int] == clean(name@));
                    lemma_first_index_found(window_names(self.windows@), clean(name@), i as int);
                }
                return Some(&self.windows[i]);
            }
            i += 1;
        }
        proof {
            lemma_first_index_absent(window_names(self.windows@), clean(name@));
        }
        None
    }
}

impl Snapshot {
    /// The first session whose name is the normalized form of `name`.
    pub open spec fn spec_find_session(&self, name: Seq<char>) -> Option<SessionView> {
        match first_index(session_names(self.sessions@), clean(name)) {
            Some(i) => Some(self.sessions@[i]),
            None => None,
        }
    }

    /// The window `window` of the session `session`, both looked up by their
    /// normalized names.
    pub open spec fn spec_find_window(&self, session: Seq<char>, window: Seq<char>) -> Option<
        WindowView,
    > {
        match self.spec_find_session(session) {
            Some(found) => found.spec_find_window(window),
            None => None,
        }
    }

    /// Looks a session up by name. The name is normalized first, as it is when
    /// a session is created, so it may be given as it was typed.
    pub fn find_session(&self, name: &str) -> (out: Option<&SessionView>)
        ensures
            out is Some <==> self.spec_find_session(name@) is Some,
            out matches Some(session) ==> Some(*session) == self.spec_find_session(name@),
    {
        let key = clean_str(name);
        let mut i: usize = 0;
        while i < self.sessions.len()
            invariant
                i <= self.sessions@.len(),
                key@ == clean(name@),
                forall|j: int|
                    0 <= j < i ==> #[trigger] session_names(self.sessions@)[j] != clean(name@),
            decreases self.sessions@.len() - i,
        {
            if self.sessions[i].name == key {
                proof {
                    assert(session_names(self.sessions@)[i as int] == clean(name@));
                    lemma_first_index_found(session_names(self.sessions@), clean(name@), i as int);
                }
                return Some(&self.sessions[i]);
            }
            i += 1;
        }
        proof {
            lemma_first_index_absent(session_names(self.sessions@), clean(name@));
        }
        None
    }

    /// Looks a window up by the names of its session and its own.
    pub fn find_window(&self, session: &str, name: &str) -> (out: Option<&WindowView>)
        ensures
            out is Some <==> self.spec_find_window(session@, name@) is Some,
            out matches Some(window) ==> Some(*window) == self.spec_find_window(session@, name@),
    {
        match self.find_session(session) {
            Some(found) => found.find_window(name),
            None => None,
        }
    }
}

/// A lookup by a name and a lookup by its normalized form give the same
/// session and the same window.
pub proof fn lemma_lookup_normalizes(snapshot: Snapshot, session: Seq<char>, window: Seq<char>)
    ensures
        snapshot.spec_find_session(clean(session)) == snapshot.spec_find_session(session),
        snapshot.spec_find_window(clean(session), clean(window)) == snapshot.spec_find_window(
            session,
            window,
        ),
        snapshot.spec_find_window(session, clean(window)) == snapshot.spec_find_window(
            session,
            window,
        ),
{
    lemma_clean_idempotent(session);
    lemma_clean_idempotent(window);
}

/// A session that stands in the snapshot under the normalized form of a name
/// is found by that name as it was typed.
pub proof fn lemma_created_session_is_found(snapshot: Snapshot, session: Seq<char>, k: int)
    requires
        0 <= k < snapshot.sessions@.len(),
        snapshot.sessions@[k].name@ == clean(session),
    ensures
        snapshot.spec_find_session(session) matches Some(found) && found.name@ == clean(session),
{
    let names = session_names(snapshot.sessions@);
    assert(names[k] == clean(session));
    lemma_first_index_exists(names, clean(session), k);
    let i = first_index(names, clean(session)).unwrap();
    assert(names[i] == snapshot.sessions@[i].name@);
}

/// A window that stands in a session under the normalized form of a name is
/// found by that name as it was typed.
pub proof fn lemma_created_window_is_found(session: SessionView, window: Seq<char>, k: int)
    requires
        0 <= k < session.windows@.len(),
        session.windows@[k].name@ == clean(window),
    ensures
        session.spec_find_window(window) matches Some(found) && found.name@ == clean(window),
{
    let names = window_names(session.windows@);
    assert(names[k] == clean(window));
    lemma_first_index_exists(names, clean(window), k);
    let i = first_index(names, clean(window)).unwrap();
    assert(names[i] == session.windows@[i].name@);
}

} // verus!

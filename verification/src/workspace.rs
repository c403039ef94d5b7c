//! The description of the workspace that is wanted.

use vstd::prelude::*;
use vstd::string::*;
use crate::names::{clean, clean_str, final_segment, is_clean, last_segment};
use crate::target::{address, write_address, Target};

verus! {

/// A workspace as the caller wants it: a window of a session, rooted at a
/// directory, with a pane layout and a command to start in each pane.
#[derive(Debug, Clone)]
pub struct WorkSpace {
    /// The directory the window and its panes start in.
    pub path: String,
    pub session_name: String,
    /// The layout descriptor, handed to the multiplexer as it is.
    pub format_checksum: String,
    /// The command at position `i` is meant for the pane with index `i`.
    pub commands: Vec<String>,
    /// The window's name; where none is given it is derived from `path`.
    pub window_name: Option<String>,
    /// The number of panes that the layout asks for.
    pub number_of_panes: u8,
}

impl WorkSpace {
    /// Whether the window has a name: one was given, or the path has a final
    /// segment to derive it from.
    pub open spec fn has_window_name(&self) -> bool {
        self.window_name is Some || final_segment(self.path@) is Some
    }

    /// The window's name: the given one as it is, else the final segment of
    /// the path, normalized.
    pub open spec fn spec_window_name(&self) -> Seq<char>
        recommends
            self.has_window_name(),
    {
        match self.window_name {
            Some(name) => name@,
            None => clean(final_segment(self.path@).unwrap()),
        }
    }

    /// The number of panes the window must have: what the layout asks for, or
    /// the number of commands where that is more, so that no command is left
    /// without its pane.
    pub open spec fn required_panes(&self) -> nat {
        if self.commands@.len() > self.number_of_panes {
            self.commands@.len()
        } else {
            self.number_of_panes as nat
        }
    }

    /// The address of the window, or of one of its panes.
    pub open spec fn spec_target(&self, pane: Option<usize>) -> Seq<char>
        recommends
            self.has_window_name(),
    {
        address(self.session_name@, self.spec_window_name(), pane)
    }

    /// Tells whether the window has a name.
    pub fn can_name_window(&self) -> (out: bool)
        ensures
            out == self.has_window_name(),
    {
        match &self.window_name {
            Some(_) => true,
            None => last_segment(self.path.as_str()).is_some(),
        }
    }

    /// The window's name.
    pub fn window_name(&self) -> (out: String)
        requires
            self.has_window_name(),
        ensures
            out@ == self.spec_window_name(),
    {
        match &self.window_name {
            Some(name) => name.clone(),
            None => {
                let segment = last_segment(self.path.as_str());
                match segment {
                    Some(name) => clean_str(name.as_str()),
                    None => vstd::pervasive::unreached(),
                }
            },
        }
    }

    /// The directory as text.
    pub fn path_str(&self) -> (out: String)
        ensures
            out@ == self.path@,
    {
        self.path.clone()
    }

    /// The number of panes the window must have.
    pub fn number_of_panes(&self) -> (out: usize)
        ensures
            out == self.required_panes(),
            out >= self.number_of_panes,
            out >= self.commands@.len(),
            out == self.number_of_panes || out == self.commands@.len(),
    {
        let wanted: usize = self.number_of_panes as usize;
        if self.commands.len() > wanted {
            self.commands.len()
        } else {
            wanted
        }
    }

    /// The window, or one of its panes, as a target.
    pub fn target(&self, pane: Option<usize>) -> (out: Target)
        requires
            self.has_window_name(),
        ensures
            out@.session == self.session_name@,
            out@.window == self.spec_window_name(),
            out@.pane == pane,
            out@.address() == self.spec_target(pane),
    {
        Target { session: self.session_name.clone(), window: self.window_name(), pane }
    }

    /// The address of the window, or of one of its panes.
    pub fn target_session(&self, pane: Option<usize>) -> (out: String)
        requires
            self.has_window_name(),
        ensures
            out@ == self.spec_target(pane),
    {
        let window = self.window_name();
        write_address(self.session_name.as_str(), window.as_str(), pane)
    }
}

/// A window name that is derived from the directory holds no `.` and no
/// space: it is the final segment of the path with each of them replaced by
/// `-`, and so is as long as that segment.
pub proof fn lemma_derived_window_name_is_clean(workspace: WorkSpace)
    requires
        workspace.window_name is None,
        workspace.has_window_name(),
    ensures
        is_clean(workspace.spec_window_name()),
        workspace.spec_window_name() == clean(final_segment(workspace.path@).unwrap()),
        workspace.spec_window_name().len() == final_segment(workspace.path@).unwrap().len(),
{
}

/// The number of panes required is the larger of the layout's count and the
/// number of commands, so no command is cut off.
pub proof fn lemma_required_panes_is_the_maximum(workspace: WorkSpace)
    ensures
        workspace.required_panes() >= workspace.number_of_panes,
        workspace.required_panes() >= workspace.commands@.len(),
        workspace.required_panes() == workspace.number_of_panes || workspace.required_panes()
            == workspace.commands@.len(),
{
}

} // verus!

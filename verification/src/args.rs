//! What the caller asked for on the command line and in its settings, and
//! what follows from it: the settings of the workspace, and which command to
//! run.

use vstd::prelude::*;
use vstd::string::*;
use crate::workspace::WorkSpace;

verus! {

/// The layout used where none is configured: two panes side by side.
pub fn default_layout_checksum() -> (out: String)
    ensures
        out@ == "34ed,230x56,0,0{132x56,0,0,3,97x56,133,0,222}"@,
{
    String::from_str("34ed,230x56,0,0{132x56,0,0,3,97x56,133,0,222}")
}

/// The session used where none is configured.
pub fn default_session_name() -> (out: String)
    ensures
        out@ == "dev"@,
{
    String::from_str("dev")
}

/// The number of panes used where none is configured.
pub fn default_number_of_panes() -> (out: u8)
    ensures
        out == 2,
{
    2
}

/// The commands used where none are configured: an editor in the first pane
/// and a listing in the second.
pub fn default_commands() -> (out: Vec<String>)
    ensures
        out@.len() == 2,
        out@[0]@ == "vim"@,
        out@[1]@ == "ls"@,
{
    let mut out: Vec<String> = Vec::new();
    out.push(String::from_str("vim"));
    out.push(String::from_str("ls"));
    out
}

/// The window name used where none is configured: none, so that it is
/// derived from the directory.
pub fn default_window_name() -> (out: Option<String>)
    ensures
        out is None,
{
    None
}

/// The settings of a workspace, apart from its directory.
#[derive(Debug)]
pub struct WorkSpaceArgs {
    pub layout: String,
    pub session_name: String,
    pub number_of_panes: u8,
    /// Where directories are offered for selection from.
    pub search_dir: String,
    pub commands: Vec<String>,
    pub window_name: Option<String>,
}

impl WorkSpaceArgs {
    /// The settings used where nothing is configured, with the given
    /// directory to select from.
    pub fn defaults(search_dir: String) -> (out: WorkSpaceArgs)
        ensures
            out.window_name is None,
            out.layout@ == "34ed,230x56,0,0{132x56,0,0,3,97x56,133,0,222}"@,
            out.session_name@ == "dev"@,
            out.number_of_panes == 2,
            out.search_dir == search_dir,
            out.commands@.len() == 2,
            out.commands@[0]@ == "vim"@,
            out.commands@[1]@ == "ls"@,
    {
        WorkSpaceArgs {
            window_name: default_window_name(),
            layout: default_layout_checksum(),
            session_name: default_session_name(),
            number_of_panes: default_number_of_panes(),
            search_dir,
            commands: default_commands(),
        }
    }
}

/// The settings given on the command line. Each one that is given takes the
/// place of the configured one.
#[derive(Debug)]
pub struct Overrides {
    pub layout: Option<String>,
    pub session_name: Option<String>,
    pub number_of_panes: Option<u8>,
    pub search_dir: Option<String>,
    pub commands: Option<Vec<String>>,
    pub window_name: Option<String>,
}

/// The value given on the command line, or else the configured one.
pub open spec fn preferred<T>(given: Option<T>, configured: T) -> T {
    match given {
        Some(value) => value,
        None => configured,
    }
}

/// Lays the command line over the configured settings. The window name is
/// taken from the command line alone.
pub fn build_workspace_args(given: Overrides, configured: WorkSpaceArgs) -> (out: WorkSpaceArgs)
    ensures
        out.window_name == given.window_name,
        out.session_name == preferred(given.session_name, configured.session_name),
        out.layout == preferred(given.layout, configured.layout),
        out.number_of_panes == preferred(given.number_of_panes, configured.number_of_panes),
        out.commands == preferred(given.commands, configured.commands),
        out.search_dir == preferred(given.search_dir, configured.search_dir),
{
    WorkSpaceArgs {
        window_name: given.window_name,
        session_name: match given.session_name {
            Some(value) => value,
            None => configured.session_name,
        },
        layout: match given.layout {
            Some(value) => value,
            None => configured.layout,
        },
        number_of_panes: match given.number_of_panes {
            Some(value) => value,
            None => configured.number_of_panes,
        },
        commands: match given.commands {
            Some(value) => value,
            None => configured.commands,
        },
        search_dir: match given.search_dir {
            Some(value) => value,
            None => configured.search_dir,
        },
    }
}

/// The directory to open without asking: the one named on the command line,
/// or else the line that was piped in, if there was one.
pub fn select_dir(named: Option<String>, piped: Option<String>) -> (out: Option<String>)
    ensures
        out == (match named {
            Some(directory) => Some(directory),
            None => piped,
        }),
{
    match named {
        Some(directory) => Some(directory),
        None => piped,
    }
}

/// Select a directory with the fuzzy finder, then open it.
#[derive(Debug)]
pub struct SelectArgs {
    pub workspace: WorkSpaceArgs,
}

/// Open the given directory.
#[derive(Debug)]
pub struct OpenArgs {
    pub workspace: WorkSpaceArgs,
    pub selected_dir: String,
}

/// Clone a repository below `target_dir`, then open the clone.
#[derive(Debug)]
pub struct PullArgs {
    pub repo_url: String,
    pub target_dir: String,
    pub workspace: WorkSpaceArgs,
}

/// What the program was asked to do.
#[derive(Debug)]
pub enum CommandType {
    /// Open a directory that was named or piped in.
    Open(OpenArgs),
    /// Select the directory from a fuzzy finder.
    Select(SelectArgs),
    /// Clone a repository and open its directory.
    Pull(PullArgs),
    /// Print the layout of the current window.
    Layout,
}

/// The command line named something that cannot be run.
#[derive(Debug, Clone, Copy, PartialEq, Eq, Structural)]
pub enum UsageError {
    /// `clone` without a repository.
    NoRepository,
    /// A subcommand that is neither `clone` nor `layout`.
    UnexpectedSubcommand,
}

impl UsageError {
    /// The error in words.
    pub fn message(&self) -> (out: String)
        ensures
            *self is NoRepository ==> out@ == "No repo specified, what should I clone?"@,
            *self is UnexpectedSubcommand ==> out@ == "unexpected subcommand"@,
    {
        match self {
            UsageError::NoRepository => String::from_str("No repo specified, what should I clone?"),
            UsageError::UnexpectedSubcommand => String::from_str("unexpected subcommand"),
        }
    }
}

/// Whether two texts hold the same characters.
pub fn same_text(left: &str, right: &str) -> (out: bool)
    ensures
        out == (left@ == right@),
{
    String::from_str(left) == String::from_str(right)
}

/// Decides what to run.
///
/// Without a subcommand a directory is opened where one was named or piped
/// in, else one is selected. `clone` needs a repository. `layout` prints the
/// layout. Any other subcommand is refused.
pub fn build_app(
    subcommand: Option<&str>,
    workspace: WorkSpaceArgs,
    selected_dir: Option<String>,
    repo: Option<String>,
    target_dir: String,
) -> (out: Result<CommandType, UsageError>)
    ensures
        subcommand is None && selected_dir is Some ==> out == Ok::<CommandType, UsageError>(
            CommandType::Open(OpenArgs { workspace, selected_dir: selected_dir.unwrap() }),
        ),
        subcommand is None && selected_dir is None ==> out == Ok::<CommandType, UsageError>(
            CommandType::Select(SelectArgs { workspace }),
        ),
        subcommand matches Some(name) && name@ == "clone"@ ==> out == (match repo {
            Some(repo_url) => Ok::<CommandType, UsageError>(
                CommandType::Pull(PullArgs { repo_url, target_dir, workspace }),
            ),
            None => Err(UsageError::NoRepository),
        }),
        subcommand matches Some(name) && name@ == "layout"@ ==> out == Ok::<
            CommandType,
            UsageError,
        >(CommandType::Layout),
        subcommand matches Some(name) && name@ != "clone"@ && name@ != "layout"@ ==> out == Err::<
            CommandType,
            UsageError,
        >(UsageError::UnexpectedSubcommand),
{
    proof {
        reveal_strlit("clone");
        reveal_strlit("layout");
    }
    match subcommand {
        None => match selected_dir {
            Some(selected_dir) => Ok(CommandType::Open(OpenArgs { workspace, selected_dir })),
            None => Ok(CommandType::Select(SelectArgs { workspace })),
        },
        Some(name) => {
            if same_text(name, "clone") {
                assert("clone"@ != "layout"@) by {
                    assert("clone"@.len() == 5);
                    assert("layout"@.len() == 6);
                }
                match repo {
                    Some(repo_url) => Ok(
                        CommandType::Pull(PullArgs { repo_url, target_dir, workspace }),
                    ),
                    None => Err(UsageError::NoRepository),
                }
            } else if same_text(name, "layout") {
                Ok(CommandType::Layout)
            } else {
                Err(UsageError::UnexpectedSubcommand)
            }
        },
    }
}

/// What must hold before anything is asked of the multiplexer.
#[derive(Debug, Clone, Copy, PartialEq, Eq, Structural)]
pub enum PreconditionError {
    /// The multiplexer cannot be run.
    MultiplexerUnavailable,
    /// The directory to open does not exist.
    DirectoryMissing,
    /// The session name is empty.
    SessionUnnamed,
    /// The directory has no final segment to name the window after, and no
    /// window name was given.
    WindowUnnamed,
    /// The layout of the current window was asked for outside of a client.
    OutsideClient,
}

impl PreconditionError {
    /// The error in words.
    pub fn message(&self) -> (out: String)
        ensures
            *self is MultiplexerUnavailable ==> out@ == "Tmux is not installed."@,
            *self is DirectoryMissing ==> out@ == "the selected directory isn't a valid path"@,
            *self is SessionUnnamed ==> out@ == "the session has no name"@,
            *self is WindowUnnamed ==> out@ == "the selected directory has no name"@,
            *self is OutsideClient ==> out@
                == "Not inside a tmux session. Run `tmux a` and select the window you want the layout of."@,
    {
        match self {
            PreconditionError::MultiplexerUnavailable => String::from_str("Tmux is not installed."),
            PreconditionError::DirectoryMissing => String::from_str(
                "the selected directory isn't a valid path",
            ),
            PreconditionError::SessionUnnamed => String::from_str("the session has no name"),
            PreconditionError::WindowUnnamed => String::from_str(
                "the selected directory has no name",
            ),
            PreconditionError::OutsideClient => String::from_str(
                "Not inside a tmux session. Run `tmux a` and select the window you want the layout of.",
            ),
        }
    }
}

/// Checks that the multiplexer is there, and that a command which reads the
/// current window is run inside a client.
pub fn check_multiplexer(command: &CommandType, has_multiplexer: bool, inside_client: bool) -> (out:
    Result<(), PreconditionError>)
    ensures
        !has_multiplexer ==> out == Err::<(), PreconditionError>(
            PreconditionError::MultiplexerUnavailable,
        ),
        has_multiplexer && *command is Layout && !inside_client ==> out == Err::<
            (),
            PreconditionError,
        >(PreconditionError::OutsideClient),
        has_multiplexer && (!(*command is Layout) || inside_client) ==> out is Ok,
{
    if !has_multiplexer {
        return Err(PreconditionError::MultiplexerUnavailable);
    }
    match command {
        CommandType::Layout => {
            if inside_client {
                Ok(())
            } else {
                Err(PreconditionError::OutsideClient)
            }
        },
        _ => Ok(()),
    }
}

/// The workspace that opening `config` asks for, as the mathematical value
/// the outcome is compared with.
pub open spec fn workspace_of(config: OpenArgs) -> WorkSpace {
    WorkSpace {
        commands: config.workspace.commands,
        path: config.selected_dir,
        session_name: config.workspace.session_name,
        format_checksum: config.workspace.layout,
        window_name: config.workspace.window_name,
        number_of_panes: config.workspace.number_of_panes,
    }
}

/// Turns the settings and the selected directory into the workspace to open.
/// The directory must exist, the session must have a name that is not empty,
/// and the window must have a name. What is missing is told in this order.
pub fn open_selected_dir(config: OpenArgs, exists: bool) -> (out: Result<
    WorkSpace,
    PreconditionError,
>)
    ensures
        !exists ==> out == Err::<WorkSpace, PreconditionError>(
            PreconditionError::DirectoryMissing,
        ),
        exists && config.workspace.session_name@.len() == 0 ==> out == Err::<
            WorkSpace,
            PreconditionError,
        >(PreconditionError::SessionUnnamed),
        exists && config.workspace.session_name@.len() > 0 && !workspace_of(
            config,
        ).has_window_name() ==> out == Err::<WorkSpace, PreconditionError>(
            PreconditionError::WindowUnnamed,
        ),
        exists && config.workspace.session_name@.len() > 0 && workspace_of(
            config,
        ).has_window_name() ==> out == Ok::<WorkSpace, PreconditionError>(workspace_of(config)),
{
    if !exists {
        return Err(PreconditionError::DirectoryMissing);
    }
    let workspace = WorkSpace {
        commands: config.workspace.commands,
        path: config.selected_dir,
        session_name: config.workspace.session_name,
        format_checksum: config.workspace.layout,
        window_name: config.workspace.window_name,
        number_of_panes: config.workspace.number_of_panes,
    };
    if workspace.session_name.as_str().unicode_len() == 0 {
        Err(PreconditionError::SessionUnnamed)
    } else if workspace.can_name_window() {
        Ok(workspace)
    } else {
        Err(PreconditionError::WindowUnnamed)
    }
}

} // verus!

//! Selecting a directory with a fuzzy finder: how the candidates are listed,
//! which of them are offered, and what the finder's answer means.

use vstd::prelude::*;
use vstd::string::*;

verus! {

/// How the candidate directories are listed.
#[derive(Debug, Clone, Copy, PartialEq, Eq, Structural)]
pub enum Listing {
    /// By the `fd` program, whose output is piped into the finder.
    Fd,
    /// By walking the directory tree, down to [`MAX_DEPTH`] levels.
    WalkDir,
}

/// How deep the directory tree is walked.
pub const MAX_DEPTH: usize = 4;

/// Selects a directory below `search_dir`.
#[derive(Debug)]
pub struct Selector {
    pub search_dir: String,
    /// Whether the `fd` program can be run.
    pub use_fd: bool,
}

impl Selector {
    /// A selector for the directories below `search_dir`.
    pub fn new(search_dir: &str, use_fd: bool) -> (out: Selector)
        ensures
            out.search_dir@ == search_dir@,
            out.use_fd == use_fd,
    {
        Selector { search_dir: String::from_str(search_dir), use_fd }
    }

    /// Chooses how the candidates are listed: by `fd` where it can be run,
    /// else by walking the tree.
    pub fn select_dir(&self) -> (out: Listing)
        ensures
            out == (if self.use_fd {
                Listing::Fd
            } else {
                Listing::WalkDir
            }),
    {
        if self.use_fd {
            Listing::Fd
        } else {
            Listing::WalkDir
        }
    }

    /// The arguments `fd` is run with: directories only, any name, below
    /// the search directory.
    pub fn fd_arguments(&self) -> (out: Vec<String>)
        ensures
            out@.len() == 3,
            out@[0]@ == "-td"@,
            out@[1]@ == "."@,
            out@[2]@ == self.search_dir@,
    {
        let mut out: Vec<String> = Vec::new();
        out.push(String::from_str("-td"));
        out.push(String::from_str("."));
        out.push(self.search_dir.clone());
        out
    }
}

/// Whether `git` stands in `name` at position `at`.
pub open spec fn git_at(name: Seq<char>, at: int) -> bool {
    &&& 0 <= at
    &&& at + 3 <= name.len()
    &&& name[at] == 'g'
    &&& name[at + 1] == 'i'
    &&& name[at + 2] == 't'
}

/// Whether `git` stands somewhere in `name`.
pub open spec fn mentions_git(name: Seq<char>) -> bool {
    exists|at: int| git_at(name, at)
}

/// Tells whether an entry belongs to a repository's own data: its file name
/// holds `git`. An entry whose name is not text does not.
pub fn is_git_dir(file_name: Option<&str>) -> (out: bool)
    ensures
        out == (file_name matches Some(name) && mentions_git(name@)),
{
    match file_name {
        None => false,
        Some(name) => {
            let n: usize = name.unicode_len();
            if n < 3 {
                assert(forall|at: int| !git_at(name@, at));
                return false;
            }
            let mut at: usize = 0;
            while at <= n - 3
                invariant
                    n == name@.len(),
                    n >= 3,
                    file_name == Some(name),
                    forall|j: int| 0 <= j < at ==> !git_at(name@, j),
                decreases n - at,
            {
                if name.get_char(at) == 'g' && name.get_char(at + 1) == 'i' && name.get_char(at + 2)
                    == 't' {
                    assert(git_at(name@, at as int));
                    return true;
                }
                at += 1;
            }
            assert(forall|j: int| !git_at(name@, j));
            false
        },
    }
}

/// Tells whether the walk offers an entry and goes below it: it is a
/// directory, and not a repository's own data.
pub fn offers_entry(is_dir: bool, file_name: Option<&str>) -> (out: bool)
    ensures
        out == (is_dir && !(file_name matches Some(name) && mentions_git(name@))),
{
    is_dir && !is_git_dir(file_name)
}

/// The candidates as the finder reads them: each path behind a line break.
pub open spec fn listing_of(paths: Seq<String>) -> Seq<char>
    decreases paths.len(),
{
    if paths.len() == 0 {
        Seq::empty()
    } else {
        listing_of(paths.drop_last()) + seq!['\n'] + paths.last()@
    }
}

/// Writes the candidates for the finder, in their order.
pub fn all_dirs_in_path(paths: &Vec<String>) -> (out: String)
    ensures
        out@ == listing_of(paths@),
{
    let mut out = String::new();
    let mut i: usize = 0;
    while i < paths.len()
        invariant
            i <= paths@.len(),
            out@ == listing_of(paths@.subrange(0, i as int)),
        decreases paths@.len() - i,
    {
        proof {
            reveal_strlit("\n");
            assert(paths@.subrange(0, i + 1).drop_last() =~= paths@.subrange(0, i as int));
        }
        out.append("\n");
        out.append(paths[i].as_str());
        i += 1;
        assert(out@ =~= listing_of(paths@.subrange(0, i as int)));
    }
    assert(paths@.subrange(0, i as int) =~= paths@);
    out
}

/// What the finder's answer means: where it succeeded, its output without
/// the line break at the end; else nothing was selected.
pub fn output_to_pathbuf(success: bool, stdout: Vec<u8>) -> (out: Option<Vec<u8>>)
    ensures
        !success ==> out is None,
        success ==> out is Some,
        out matches Some(path) ==> path@ == (if stdout@.len() > 0 {
            stdout@.drop_last()
        } else {
            stdout@
        }),
{
    if success {
        let mut path = stdout;
        path.pop();
        Some(path)
    } else {
        None
    }
}

} // verus!

//! Naming the directory that a repository is cloned into, after the last
//! segment of the repository's address.

use vstd::prelude::*;
use vstd::string::*;
use crate::names::segment_start;

verus! {

/// The path segments of the URL that `input` is parsed to by the `url`
/// crate: `None` where `input` is no absolute URL, `Some(None)` where the URL
/// cannot be a base and so has no segments, else the segments in their
/// order, percent-encoded as the crate writes them.
pub uninterp spec fn url_path_segments(input: Seq<char>) -> Option<Option<Seq<Seq<char>>>>;

/// The texts of some strings, in their order.
pub open spec fn texts(strings: Seq<String>) -> Seq<Seq<char>> {
    Seq::new(strings.len(), |i: int| strings[i]@)
}

/// The mathematical value of parsed path segments.
pub open spec fn segments_view(parsed: Option<Option<Vec<String>>>) -> Option<
    Option<Seq<Seq<char>>>,
> {
    match parsed {
        None => None,
        Some(None) => Some(None),
        Some(Some(parts)) => Some(Some(texts(parts@))),
    }
}

/// Parses `input` with `url::Url::parse` and reads the path segments of the
/// result with `url::Url::path_segments`.
///
/// Not proved: that the outcome is the one named [`url_path_segments`], that
/// is, that it depends on the text of `input` alone. Nothing is claimed about
/// which texts are URLs, nor about what their segments are.
#[verifier::external_body]
fn parse_path_segments(input: &str) -> (out: Option<Option<Vec<String>>>)
    ensures
        segments_view(out) == url_path_segments(input@),
{
    match url::Url::parse(input) {
        Ok(parsed) => Some(parsed.path_segments().map(|parts| parts.map(String::from).collect())),
        Err(_) => None,
    }
}

/// Whether `.git` stands in `text` at position `at`.
pub open spec fn git_suffix_at(text: Seq<char>, at: int) -> bool {
    &&& 0 <= at
    &&& at + 4 <= text.len()
    &&& text[at] == '.'
    &&& text[at + 1] == 'g'
    &&& text[at + 2] == 'i'
    &&& text[at + 3] == 't'
}

/// `text` from `from` on with every `.git` taken out, reading from the left:
/// an occurrence that begins inside another one that was taken out does not
/// count.
pub open spec fn without_git(text: Seq<char>, from: nat) -> Seq<char>
    decreases text.len() - from,
{
    if from >= text.len() {
        Seq::empty()
    } else if git_suffix_at(text, from as int) {
        without_git(text, from + 4)
    } else {
        seq![text[from as int]] + without_git(text, from + 1)
    }
}

/// What is behind the last `/` of `text`; all of it where it holds none.
pub open spec fn behind_last_slash(text: Seq<char>) -> Seq<char> {
    text.subrange(segment_start(text, text.len()) as int, text.len() as int)
}

/// Why an address gives no directory name.
#[derive(Debug, Clone, Copy, PartialEq, Eq, Structural)]
pub enum DirNameError {
    /// The address is a URL that cannot be a base, so it has no path.
    CannotBeBase,
    /// The URL's path has no segment.
    NoSegments,
}

impl DirNameError {
    /// The error in words.
    pub fn message(&self) -> (out: String)
        ensures
            *self is CannotBeBase ==> out@ == "cannot be base"@,
            *self is NoSegments ==> out@ == "no segments"@,
    {
        match self {
            DirNameError::CannotBeBase => String::from_str("cannot be base"),
            DirNameError::NoSegments => String::from_str("no segments"),
        }
    }
}

/// The directory name for an address, given how the address parsed as a URL.
/// For a URL it is the last path segment, for any other text what is behind
/// its last `/`; in both cases without `.git`.
pub open spec fn spec_dir_name(parsed: Option<Option<Seq<Seq<char>>>>, git_url: Seq<char>) -> Result<
    Seq<char>,
    DirNameError,
> {
    match parsed {
        Some(Some(parts)) => if parts.len() == 0 {
            Err(DirNameError::NoSegments)
        } else {
            Ok(without_git(parts.last(), 0))
        },
        Some(None) => Err(DirNameError::CannotBeBase),
        None => Ok(without_git(behind_last_slash(git_url), 0)),
    }
}

/// The mathematical value of a directory name or the error in its place.
pub open spec fn dir_name_view(outcome: Result<String, DirNameError>) -> Result<
    Seq<char>,
    DirNameError,
> {
    match outcome {
        Ok(name) => Ok(name@),
        Err(error) => Err(error),
    }
}

/// Takes every `.git` out of `text`.
pub fn strip_git(text: &str) -> (out: String)
    ensures
        out@ == without_git(text@, 0),
{
    let n: usize = text.unicode_len();
    let mut out = String::new();
    let mut at: usize = 0;
    while at < n
        invariant
            at <= n,
            n == text@.len(),
            out@ + without_git(text@, at as nat) == without_git(text@, 0),
        decreases n - at,
    {
        let ghost before = out@;
        if n - at >= 4 && text.get_char(at) == '.' && text.get_char(at + 1) == 'g' && text.get_char(
            at + 2,
        ) == 'i' && text.get_char(at + 3) == 't' {
            at += 4;
        } else {
            out.append(text.substring_char(at, at + 1));
            proof {
                let rest = without_git(text@, (at + 1) as nat);
                assert(out@ + rest =~= before + (seq![text@[at as int]] + rest));
            }
            at += 1;
        }
    }
    assert(out@ + Seq::<char>::empty() =~= out@);
    out
}

/// What is behind the last `/` of `text`.
pub fn last_piece(text: &str) -> (out: String)
    ensures
        out@ == behind_last_slash(text@),
{
    let n: usize = text.unicode_len();
    let mut start: usize = n;
    let mut scanning = true;
    while scanning && start > 0
        invariant
            start <= n,
            n == text@.len(),
            segment_start(text@, n as nat) == segment_start(text@, start as nat),
            !scanning ==> segment_start(text@, start as nat) == start,
        decreases start + (if scanning { 1int } else { 0int }),
    {
        if text.get_char(start - 1) == '/' {
            scanning = false;
        } else {
            start -= 1;
        }
    }
    String::from_str(text.substring_char(start, n))
}

/// Names the directory for an address whose parse as a URL is at hand.
pub fn dir_name_from(parsed: Option<Option<Vec<String>>>, git_url: &str) -> (out: Result<
    String,
    DirNameError,
>)
    ensures
        dir_name_view(out) == spec_dir_name(segments_view(parsed), git_url@),
{
    match parsed {
        Some(Some(parts)) => {
            if parts.len() == 0 {
                Err(DirNameError::NoSegments)
            } else {
                assert(texts(parts@).last() == parts@[parts@.len() - 1]@);
                Ok(strip_git(parts[parts.len() - 1].as_str()))
            }
        },
        Some(None) => Err(DirNameError::CannotBeBase),
        None => {
            let piece = last_piece(git_url);
            Ok(strip_git(piece.as_str()))
        },
    }
}

/// Names the directory that the repository at `git_url` is cloned into.
///
/// Where the address is a URL, the name is its last path segment; else it is
/// what stands behind the last `/` of the address. A `.git` in it is left
/// out.
pub fn git_url_to_dir_name(git_url: &str) -> (out: Result<String, DirNameError>)
    ensures
        dir_name_view(out) == spec_dir_name(url_path_segments(git_url@), git_url@),
{
    let parsed = parse_path_segments(git_url);
    dir_name_from(parsed, git_url)
}

} // verus!

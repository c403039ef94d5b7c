//! Reading the layout of the active window out of the multiplexer's listing
//! of windows, where each line holds the window's active flag, a blank, and
//! its layout descriptor.

use vstd::prelude::*;
use vstd::string::*;

verus! {

/// Whether a character separates words.
pub open spec fn is_space(c: char) -> bool {
    ||| c == ' '
    ||| ('\u{9}' <= c && c <= '\u{d}')
    ||| c == '\u{85}'
    ||| c == '\u{a0}'
    ||| c == '\u{1680}'
    ||| ('\u{2000}' <= c && c <= '\u{200a}')
    ||| c == '\u{2028}'
    ||| c == '\u{2029}'
    ||| c == '\u{202f}'
    ||| c == '\u{205f}'
    ||| c == '\u{3000}'
}

/// Where the first line from `from` on begins that starts with `1`, the
/// flag of the active window. `at_start` says whether `from` begins a line.
pub open spec fn active_line(listing: Seq<char>, from: nat, at_start: bool) -> Option<nat>
    decreases listing.len() - from,
{
    if from >= listing.len() {
        None
    } else if at_start && listing[from as int] == '1' {
        Some(from)
    } else {
        active_line(listing, from + 1, listing[from as int] == '\n')
    }
}

/// Where the line that holds position `from` ends: at the next line break,
/// or at the end of the listing.
pub open spec fn line_end(listing: Seq<char>, from: nat) -> nat
    decreases listing.len() - from,
{
    if from >= listing.len() {
        listing.len()
    } else if listing[from as int] == '\n' {
        from
    } else {
        line_end(listing, from + 1)
    }
}

/// Where the last word of `listing[start..end]` ends: `end` without the
/// separators in front of it.
pub open spec fn word_end(listing: Seq<char>, start: nat, end: nat) -> nat
    decreases end,
{
    if end <= start {
        start
    } else if is_space(listing[end - 1]) {
        word_end(listing, start, (end - 1) as nat)
    } else {
        end
    }
}

/// Where the word that ends at `end` begins: behind the nearest separator in
/// front of `end`, or at `start`.
pub open spec fn word_start(listing: Seq<char>, start: nat, end: nat) -> nat
    decreases end,
{
    if end <= start {
        start
    } else if is_space(listing[end - 1]) {
        end
    } else {
        word_start(listing, start, (end - 1) as nat)
    }
}

/// The layout of the active window: the last word of the first line that
/// starts with `1`. A listing without such a line has none.
pub open spec fn spec_active_layout(listing: Seq<char>) -> Option<Seq<char>> {
    match active_line(listing, 0, true) {
        None => None,
        Some(start) => {
            let end = word_end(listing, start, line_end(listing, start));
            Some(listing.subrange(word_start(listing, start, end) as int, end as int))
        },
    }
}

/// Tells whether a character separates words.
pub fn is_space_char(c: char) -> (out: bool)
    ensures
        out == is_space(c),
{
    c == ' ' || ('\u{9}' <= c && c <= '\u{d}') || c == '\u{85}' || c == '\u{a0}' || c
        == '\u{1680}' || ('\u{2000}' <= c && c <= '\u{200a}') || c == '\u{2028}' || c
        == '\u{2029}' || c == '\u{202f}' || c == '\u{205f}' || c == '\u{3000}'
}

proof fn lemma_word_bounds(listing: Seq<char>, start: nat, end: nat)
    requires
        start <= end,
    ensures
        start <= word_end(listing, start, end) <= end,
        start <= word_start(listing, start, end) <= end,
    decreases end,
{
    if end > start {
        lemma_word_bounds(listing, start, (end - 1) as nat);
    }
}

proof fn lemma_line_end_bounds(listing: Seq<char>, from: nat)
    requires
        from <= listing.len(),
    ensures
        from <= line_end(listing, from) <= listing.len(),
    decreases listing.len() - from,
{
    if from < listing.len() && listing[from as int] != '\n' {
        lemma_line_end_bounds(listing, from + 1);
    }
}

/// The layout of the active window is a word: it is not empty and holds no
/// separator.
pub proof fn lemma_active_layout_is_a_word(listing: Seq<char>)
    ensures
        spec_active_layout(listing) matches Some(layout) ==> layout.len() > 0 && forall|i: int|
            0 <= i < layout.len() ==> !is_space(#[trigger] layout[i]),
{
    if let Some(start) = active_line(listing, 0, true) {
        lemma_active_line_starts_with_flag(listing, 0, true);
        lemma_line_end_bounds(listing, start);
        let stop = line_end(listing, start);
        lemma_line_end_behind(listing, start);
        lemma_word_holds_no_space(listing, start, stop);
    }
}

proof fn lemma_active_line_starts_with_flag(listing: Seq<char>, from: nat, at_start: bool)
    ensures
        active_line(listing, from, at_start) matches Some(start) ==> from <= start < listing.len()
            && listing[start as int] == '1',
    decreases listing.len() - from,
{
    if from < listing.len() && !(at_start && listing[from as int] == '1') {
        lemma_active_line_starts_with_flag(listing, from + 1, listing[from as int] == '\n');
    }
}

proof fn lemma_line_end_behind(listing: Seq<char>, from: nat)
    requires
        from < listing.len(),
        listing[from as int] != '\n',
    ensures
        line_end(listing, from) > from,
{
    lemma_line_end_bounds(listing, from + 1);
}

proof fn lemma_word_holds_no_space(listing: Seq<char>, start: nat, end: nat)
    requires
        start < end <= listing.len(),
        !is_space(listing[start as int]),
    ensures
        ({
            let stop = word_end(listing, start, end);
            let begin = word_start(listing, start, stop);
            &&& start <= begin < stop <= end
            &&& forall|i: int| begin <= i < stop ==> !is_space(#[trigger] listing[i])
        }),
    decreases end,
{
    let stop = word_end(listing, start, end);
    lemma_word_bounds(listing, start, end);
    if is_space(listing[end - 1]) {
        lemma_word_holds_no_space(listing, start, (end - 1) as nat);
    } else {
        lemma_word_start_holds_no_space(listing, start, end);
    }
}

proof fn lemma_word_start_holds_no_space(listing: Seq<char>, start: nat, end: nat)
    requires
        start <= end <= listing.len(),
    ensures
        start <= word_start(listing, start, end) <= end,
        end > start && !is_space(listing[end - 1]) ==> word_start(listing, start, end) < end,
        forall|i: int|
            word_start(listing, start, end) <= i < end ==> !is_space(#[trigger] listing[i]),
    decreases end,
{
    if end > start && !is_space(listing[end - 1]) {
        lemma_word_start_holds_no_space(listing, start, (end - 1) as nat);
    }
}

/// Reads the layout of the active window out of a listing of windows.
pub fn generate_layout(listing: &str) -> (out: Option<String>)
    ensures
        out is Some <==> spec_active_layout(listing@) is Some,
        out matches Some(layout) ==> spec_active_layout(listing@) == Some(layout@),
{
    let n: usize = listing.unicode_len();
    let mut start: usize = 0;
    let mut at_start = true;
    let mut found = false;
    while !found && start < n
        invariant
            start <= n,
            n == listing@.len(),
            active_line(listing@, 0, true) == active_line(listing@, start as nat, at_start),
            found ==> start < n && active_line(listing@, 0, true) == Some(start as nat),
        decreases n - start + (if found { 0int } else { 1int }),
    {
        let c = listing.get_char(start);
        if at_start && c == '1' {
            found = true;
        } else {
            at_start = c == '\n';
            start += 1;
        }
    }
    if !found {
        return None;
    }
    let mut stop: usize = start;
    while stop < n && listing.get_char(stop) != '\n'
        invariant
            start <= stop <= n,
            n == listing@.len(),
            line_end(listing@, start as nat) == line_end(listing@, stop as nat),
        decreases n - stop,
    {
        stop += 1;
    }
    let ghost line_stop = stop;
    let mut trimming = true;
    while trimming && stop > start
        invariant
            start <= stop <= n,
            n == listing@.len(),
            word_end(listing@, start as nat, line_stop as nat) == word_end(
                listing@,
                start as nat,
                stop as nat,
            ),
            !trimming ==> word_end(listing@, start as nat, stop as nat) == stop,
        decreases stop + (if trimming { 1int } else { 0int }),
    {
        if is_space_char(listing.get_char(stop - 1)) {
            stop -= 1;
        } else {
            trimming = false;
        }
    }
    let mut begin: usize = stop;
    let mut scanning = true;
    while scanning && begin > start
        invariant
            start <= begin <= stop <= n,
            n == listing@.len(),
            word_start(listing@, start as nat, stop as nat) == word_start(
                listing@,
                start as nat,
                begin as nat,
            ),
            !scanning ==> word_start(listing@, start as nat, begin as nat) == begin,
        decreases begin + (if scanning { 1int } else { 0int }),
    {
        if is_space_char(listing.get_char(begin - 1)) {
            scanning = false;
        } else {
            begin -= 1;
        }
    }
    Some(String::from_str(listing.substring_char(begin, stop)))
}

} // verus!

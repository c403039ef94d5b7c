//! Reading what the multiplexer prints when it is asked to list sessions,
//! windows or panes: one entry per line.

use vstd::prelude::*;
use vstd::string::*;
use crate::client::MultiplexerError;
use crate::names::{decimal, digit_char};
use crate::snapshot::PaneView;

verus! {

/// The lines of `text` from position `at` on, where the line under way began
/// at `start`. A line ends at a line break or at the end of the text; the
/// text behind the last line break is a line only if it is not empty.
pub open spec fn lines_from(text: Seq<char>, start: nat, at: nat) -> Seq<Seq<char>>
    decreases text.len() - at,
{
    if at >= text.len() {
        if start < text.len() {
            seq![text.subrange(start as int, text.len() as int)]
        } else {
            Seq::empty()
        }
    } else if text[at as int] == '\n' {
        seq![text.subrange(start as int, at as int)] + lines_from(text, at + 1, at + 1)
    } else {
        lines_from(text, start, at + 1)
    }
}

/// The lines of `text`.
pub open spec fn lines_of(text: Seq<char>) -> Seq<Seq<char>> {
    lines_from(text, 0, 0)
}

/// The texts of some strings, in their order.
pub open spec fn line_texts(lines: Seq<String>) -> Seq<Seq<char>> {
    Seq::new(lines.len(), |i: int| lines[i]@)
}

/// Splits a listing into its lines.
pub fn split_lines(text: &str) -> (out: Vec<String>)
    ensures
        line_texts(out@) == lines_of(text@),
{
    let n: usize = text.unicode_len();
    let mut out: Vec<String> = Vec::new();
    let mut start: usize = 0;
    let mut at: usize = 0;
    while at < n
        invariant
            start <= at <= n,
            n == text@.len(),
            line_texts(out@) + lines_from(text@, start as nat, at as nat) == lines_of(text@),
        decreases n - at,
    {
        let ghost before = line_texts(out@);
        if text.get_char(at) == '\n' {
            out.push(String::from_str(text.substring_char(start, at)));
            proof {
                let rest = lines_from(text@, (at + 1) as nat, (at + 1) as nat);
                assert(line_texts(out@) =~= before + seq![
                    text@.subrange(start as int, at as int),
                ]);
                assert(line_texts(out@) + rest =~= before + (seq![
                    text@.subrange(start as int, at as int),
                ] + rest));
            }
            start = at + 1;
        }
        at += 1;
    }
    if start < n {
        let ghost before = line_texts(out@);
        out.push(String::from_str(text.substring_char(start, n)));
        assert(line_texts(out@) =~= before + seq![text@.subrange(start as int, n as int)]);
    } else {
        assert(line_texts(out@) + Seq::<Seq<char>>::empty() =~= line_texts(out@));
    }
    out
}

/// The value of a decimal digit; nothing for any other character.
pub open spec fn digit_value(c: char) -> Option<nat> {
    if c == '0' {
        Some(0)
    } else if c == '1' {
        Some(1)
    } else if c == '2' {
        Some(2)
    } else if c == '3' {
        Some(3)
    } else if c == '4' {
        Some(4)
    } else if c == '5' {
        Some(5)
    } else if c == '6' {
        Some(6)
    } else if c == '7' {
        Some(7)
    } else if c == '8' {
        Some(8)
    } else if c == '9' {
        Some(9)
    } else {
        None
    }
}

/// The number that `text` writes in decimal; nothing where `text` is empty
/// or holds anything but digits.
pub open spec fn number_of(text: Seq<char>) -> Option<nat>
    decreases text.len(),
{
    if text.len() == 0 {
        None
    } else {
        match digit_value(text.last()) {
            None => None,
            Some(digit) => if text.len() == 1 {
                Some(digit)
            } else {
                match number_of(text.drop_last()) {
                    Some(front) => Some(front * 10 + digit),
                    None => None,
                }
            },
        }
    }
}

/// The index that `text` writes: its number, where that fits the machine's
/// word.
pub open spec fn index_of(text: Seq<char>) -> Option<usize> {
    match number_of(text) {
        Some(value) => if value <= usize::MAX {
            Some(value as usize)
        } else {
            None
        },
        None => None,
    }
}

fn digit_of(c: char) -> (out: Option<usize>)
    ensures
        out is Some <==> digit_value(c) is Some,
        out matches Some(digit) ==> digit_value(c) == Some(digit as nat) && digit < 10,
{
    if c == '0' {
        Some(0)
    } else if c == '1' {
        Some(1)
    } else if c == '2' {
        Some(2)
    } else if c == '3' {
        Some(3)
    } else if c == '4' {
        Some(4)
    } else if c == '5' {
        Some(5)
    } else if c == '6' {
        Some(6)
    } else if c == '7' {
        Some(7)
    } else if c == '8' {
        Some(8)
    } else if c == '9' {
        Some(9)
    } else {
        None
    }
}

/// A text that writes a number does so in each of its beginnings, and the
/// numbers do not shrink as the beginning grows.
pub proof fn lemma_number_of_prefix(text: Seq<char>, i: int)
    requires
        0 < i <= text.len(),
    ensures
        number_of(text) is Some ==> number_of(text.subrange(0, i)) is Some && number_of(
            text.subrange(0, i),
        ).unwrap() <= number_of(text).unwrap(),
    decreases text.len(),
{
    if i == text.len() {
        assert(text.subrange(0, i) =~= text);
    } else if number_of(text) is Some {
        assert(text.drop_last().subrange(0, i) =~= text.subrange(0, i));
        lemma_number_of_prefix(text.drop_last(), i);
    }
}

/// Reads an index written in decimal.
pub fn parse_index(text: &str) -> (out: Option<usize>)
    ensures
        out == index_of(text@),
{
    let n: usize = text.unicode_len();
    if n == 0 {
        return None;
    }
    let mut value: usize = 0;
    let mut at: usize = 0;
    while at < n
        invariant
            at <= n,
            n == text@.len(),
            at > 0 ==> number_of(text@.subrange(0, at as int)) == Some(value as nat),
            at == 0 ==> value == 0,
        decreases n - at,
    {
        let ghost front = text@.subrange(0, at as int);
        let ghost grown = text@.subrange(0, at + 1);
        proof {
            assert(grown.drop_last() =~= front);
            assert(grown.last() == text@[at as int]);
            lemma_number_of_prefix(text@, at + 1);
        }
        match digit_of(text.get_char(at)) {
            None => {
                return None;
            },
            Some(digit) => {
                if value > (usize::MAX - digit) / 10 {
                    assert(number_of(grown) matches Some(large) && large > usize::MAX) by {
                        assert(value * 10 + digit > usize::MAX) by (nonlinear_arith)
                            requires
                                value > (usize::MAX - digit) / 10,
                                digit < 10,
                        ;
                    }
                    return None;
                }
                assert(value * 10 + digit <= usize::MAX) by (nonlinear_arith)
                    requires
                        value <= (usize::MAX - digit) / 10,
                        digit < 10,
                ;
                value = value * 10 + digit;
            },
        }
        at += 1;
    }
    assert(text@.subrange(0, n as int) =~= text@);
    Some(value)
}

/// An index that is written in decimal is read back as the same index.
pub proof fn lemma_index_round_trip(n: usize)
    ensures
        index_of(decimal(n as nat)) == Some(n),
{
    lemma_number_round_trip(n as nat);
}

/// A number that is written in decimal is read back as the same number.
pub proof fn lemma_number_round_trip(n: nat)
    ensures
        number_of(decimal(n)) == Some(n),
    decreases n,
{
    if n < 10 {
        assert(decimal(n).last() == digit_char(n));
    } else {
        lemma_number_round_trip(n / 10);
        let text = decimal(n);
        assert(text.last() == digit_char(n % 10));
        assert(text.drop_last() =~= decimal(n / 10));
        crate::names::lemma_decimal_is_digits(n / 10);
        assert(text.len() > 1);
    }
}

/// The indices that the lines write, if each line writes one.
pub open spec fn indices_of(lines: Seq<Seq<char>>) -> Option<Seq<usize>>
    decreases lines.len(),
{
    if lines.len() == 0 {
        Some(Seq::empty())
    } else {
        match (indices_of(lines.drop_last()), index_of(lines.last())) {
            (Some(front), Some(index)) => Some(front.push(index)),
            _ => None,
        }
    }
}

/// The indices of some panes, in their order.
pub open spec fn pane_indices(panes: Seq<PaneView>) -> Seq<usize> {
    Seq::new(panes.len(), |i: int| panes[i].index)
}

/// Reads a listing of panes that holds one pane index per line. A line that
/// is not an index makes the whole listing unreadable.
pub fn parse_panes(listing: &str) -> (out: Option<Vec<PaneView>>)
    ensures
        out is Some <==> indices_of(lines_of(listing@)) is Some,
        out matches Some(panes) ==> Some(pane_indices(panes@)) == indices_of(lines_of(listing@)),
{
    let lines = split_lines(listing);
    let mut panes: Vec<PaneView> = Vec::new();
    let mut i: usize = 0;
    while i < lines.len()
        invariant
            i <= lines@.len(),
            line_texts(lines@) == lines_of(listing@),
            indices_of(line_texts(lines@).subrange(0, i as int)) == Some(pane_indices(panes@)),
        decreases lines@.len() - i,
    {
        let ghost all = line_texts(lines@);
        proof {
            assert(all.subrange(0, i + 1).drop_last() =~= all.subrange(0, i as int));
            assert(all.subrange(0, i + 1).last() == lines@[i as int]@);
        }
        match parse_index(lines[i].as_str()) {
            Some(index) => {
                let ghost before = pane_indices(panes@);
                panes.push(PaneView { index });
                assert(pane_indices(panes@) =~= before.push(index));
            },
            None => {
                proof {
                    lemma_unreadable_line(all, i as int);
                }
                return None;
            },
        }
        i += 1;
    }
    assert(line_texts(lines@).subrange(0, i as int) =~= line_texts(lines@));
    Some(panes)
}

proof fn lemma_unreadable_line(lines: Seq<Seq<char>>, i: int)
    requires
        0 <= i < lines.len(),
        index_of(lines[i]) is None,
    ensures
        indices_of(lines) is None,
    decreases lines.len(),
{
    if i < lines.len() - 1 {
        lemma_unreadable_line(lines.drop_last(), i);
    }
}

/// Reads a listing of panes, or tells that it cannot be read. The error
/// holds no exit status, and the listing as it came in place of the error
/// stream.
pub fn read_panes(listing: String) -> (out: Result<Vec<PaneView>, MultiplexerError>)
    ensures
        out is Ok <==> indices_of(lines_of(listing@)) is Some,
        out matches Ok(panes) ==> Some(pane_indices(panes@)) == indices_of(lines_of(listing@)),
        out matches Err(error) ==> error == (MultiplexerError { status: None, stderr: listing }),
{
    match parse_panes(listing.as_str()) {
        Some(panes) => Ok(panes),
        None => Err(MultiplexerError { status: None, stderr: listing }),
    }
}

/// The names of the sessions, read from their listing. A server that did not
/// answer the listing runs no session.
pub fn listed_sessions(answered: bool, listing: &str) -> (out: Vec<String>)
    ensures
        answered ==> line_texts(out@) == lines_of(listing@),
        !answered ==> out@.len() == 0,
{
    if answered {
        split_lines(listing)
    } else {
        Vec::new()
    }
}

/// What a finished call of the multiplexer means: nothing is wrong where it
/// succeeded, else the error holds its exit status and what it wrote to its
/// error stream.
pub fn check_outcome(success: bool, status: Option<i32>, stderr: String) -> (out: Result<
    (),
    MultiplexerError,
>)
    ensures
        success ==> out is Ok,
        !success ==> out == Err::<(), MultiplexerError>(MultiplexerError { status, stderr }),
{
    if success {
        Ok(())
    } else {
        Err(MultiplexerError { status, stderr })
    }
}

} // verus!

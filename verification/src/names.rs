//! Names that are safe inside a target address, and the text forms that go
//! with them: the final segment of a path and decimal pane indices.

use vstd::prelude::*;
use vstd::string::*;

verus! {

/// What a character becomes inside a normalized name: the two characters that
/// would be read as part of the address syntax turn into a hyphen.
pub open spec fn clean_char(c: char) -> char {
    if c == '.' || c == ' ' {
        '-'
    } else {
        c
    }
}

/// A name with every `.` and every space replaced by `-`.
pub open spec fn clean(s: Seq<char>) -> Seq<char> {
    Seq::new(s.len(), |i: int| clean_char(s[i]))
}

/// Whether a name holds neither `.` nor a space.
pub open spec fn is_clean(s: Seq<char>) -> bool {
    forall|i: int| 0 <= i < s.len() ==> s[i] != '.' && s[i] != ' '
}

/// Replaces every `.` and every space of `string` by `-`.
pub fn clean_str(string: &str) -> (out: String)
    ensures
        out@ == clean(string@),
{
    let n: usize = string.unicode_len();
    let mut out = String::new();
    let mut i: usize = 0;
    while i < n
        invariant
            i <= n,
            n == string@.len(),
            out@ == clean(string@.subrange(0, i as int)),
        decreases n - i,
    {
        let c = string.get_char(i);
        if c == '.' || c == ' ' {
            proof {
                reveal_strlit("-");
            }
            out.append("-");
        } else {
            out.append(string.substring_char(i, i + 1));
        }
        i += 1;
        assert(out@ =~= clean(string@.subrange(0, i as int)));
    }
    assert(string@.subrange(0, n as int) =~= string@);
    out
}

/// A normalized name holds no `.` and no space, and is as long as the name it
/// was made from.
pub proof fn lemma_clean_is_clean(s: Seq<char>)
    ensures
        is_clean(clean(s)),
        clean(s).len() == s.len(),
{
}

/// Normalizing a name that is already normalized changes nothing, so
/// normalizing twice is the same as normalizing once.
pub proof fn lemma_clean_idempotent(s: Seq<char>)
    ensures
        clean(clean(s)) == clean(s),
        is_clean(s) ==> clean(s) == s,
{
    assert(clean(clean(s)) =~= clean(s));
    if is_clean(s) {
        assert(clean(s) =~= s);
    }
}

/// Where the last segment of `p[..end]` stops, once trailing separators and
/// trailing `.` segments are left aside.
pub open spec fn trimmed_end(p: Seq<char>, end: nat) -> nat
    recommends
        end <= p.len(),
    decreases end,
{
    if end == 0 {
        0
    } else if p[end - 1] == '/' {
        trimmed_end(p, (end - 1) as nat)
    } else if p[end - 1] == '.' && (end == 1 || p[end - 2] == '/') {
        trimmed_end(p, (end - 1) as nat)
    } else {
        end
    }
}

/// Where the segment that stops at `end` begins: just behind the nearest
/// separator in front of `end`, or at the start of the path.
pub open spec fn segment_start(p: Seq<char>, end: nat) -> nat
    recommends
        end <= p.len(),
    decreases end,
{
    if end == 0 || p[end - 1] == '/' {
        end
    } else {
        segment_start(p, (end - 1) as nat)
    }
}

/// The final segment of a `/`-separated path. Trailing separators and `.`
/// segments do not count; a path that has no segment left, or whose last one
/// is `..`, has none.
pub open spec fn final_segment(p: Seq<char>) -> Option<Seq<char>> {
    let end = trimmed_end(p, p.len());
    let start = segment_start(p, end);
    let segment = p.subrange(start as int, end as int);
    if end == 0 || segment == seq!['.', '.'] {
        None
    } else {
        Some(segment)
    }
}

/// Trimming and scanning only move towards the start of the path, and a
/// path that keeps something after trimming ends in a segment that is not
/// empty.
pub proof fn lemma_segment_bounds(p: Seq<char>, end: nat)
    requires
        end <= p.len(),
    ensures
        trimmed_end(p, end) <= end,
        segment_start(p, end) <= end,
        trimmed_end(p, end) > 0 ==> segment_start(p, trimmed_end(p, end)) < trimmed_end(p, end),
    decreases end,
{
    if end > 0 {
        lemma_segment_bounds(p, (end - 1) as nat);
    }
}

/// The final segment of a path, when it has one, is not empty and holds no
/// separator.
pub proof fn lemma_final_segment_is_a_name(p: Seq<char>)
    ensures
        final_segment(p) matches Some(segment) ==> segment.len() > 0 && forall|i: int|
            0 <= i < segment.len() ==> segment[i] != '/',
{
    let end = trimmed_end(p, p.len());
    lemma_segment_bounds(p, p.len());
    lemma_segment_has_no_separator(p, end);
}

proof fn lemma_segment_has_no_separator(p: Seq<char>, end: nat)
    requires
        end <= p.len(),
    ensures
        forall|i: int| segment_start(p, end) <= i < end ==> p[i] != '/',
    decreases end,
{
    if end > 0 && p[end - 1] != '/' {
        lemma_segment_has_no_separator(p, (end - 1) as nat);
    }
}

/// The final segment of `path`, if it has one.
pub fn last_segment(path: &str) -> (out: Option<String>)
    ensures
        out is Some <==> final_segment(path@) is Some,
        out matches Some(name) ==> final_segment(path@) == Some(name@),
{
    let n: usize = path.unicode_len();
    let mut end: usize = n;
    let mut trimming = true;
    while trimming && end > 0
        invariant
            end <= n,
            n == path@.len(),
            trimmed_end(path@, n as nat) == trimmed_end(path@, end as nat),
            !trimming ==> trimmed_end(path@, end as nat) == end,
        decreases end + (if trimming { 1int } else { 0int }),
    {
        let c = path.get_char(end - 1);
        if c == '/' {
            end -= 1;
        } else if c == '.' && (end == 1 || path.get_char(end - 2) == '/') {
            end -= 1;
        } else {
            trimming = false;
        }
    }
    if end == 0 {
        return None;
    }
    let mut start: usize = end;
    let mut scanning = true;
    while scanning && start > 0
        invariant
            start <= end <= n,
            n == path@.len(),
            segment_start(path@, end as nat) == segment_start(path@, start as nat),
            !scanning ==> segment_start(path@, start as nat) == start,
        decreases start + (if scanning { 1int } else { 0int }),
    {
        if path.get_char(start - 1) == '/' {
            scanning = false;
        } else {
            start -= 1;
        }
    }
    let segment = path.substring_char(start, end);
    if end - start == 2 && segment.get_char(0) == '.' && segment.get_char(1) == '.' {
        assert(segment@ =~= seq!['.', '.']);
        None
    } else {
        assert(segment@ != seq!['.', '.']) by {
            if segment@ == seq!['.', '.'] {
                assert(seq!['.', '.'].len() == 2);
                assert(seq!['.', '.'][0] == '.');
                assert(seq!['.', '.'][1] == '.');
            }
        }
        Some(String::from_str(segment))
    }
}

/// The character of a decimal digit.
pub open spec fn digit_char(d: nat) -> char
    recommends
        d < 10,
{
    if d == 0 {
        '0'
    } else if d == 1 {
        '1'
    } else if d == 2 {
        '2'
    } else if d == 3 {
        '3'
    } else if d == 4 {
        '4'
    } else if d == 5 {
        '5'
    } else if d == 6 {
        '6'
    } else if d == 7 {
        '7'
    } else if d == 8 {
        '8'
    } else {
        '9'
    }
}

/// A number written in decimal, without sign and without leading zeros.
pub open spec fn decimal(n: nat) -> Seq<char>
    decreases n,
{
    if n < 10 {
        seq![digit_char(n)]
    } else {
        decimal(n / 10).push(digit_char(n % 10))
    }
}

fn digit_str(d: usize) -> (out: &'static str)
    requires
        d < 10,
    ensures
        out@ == seq![digit_char(d as nat)],
{
    proof {
        reveal_strlit("0");
        reveal_strlit("1");
        reveal_strlit("2");
        reveal_strlit("3");
        reveal_strlit("4");
        reveal_strlit("5");
        reveal_strlit("6");
        reveal_strlit("7");
        reveal_strlit("8");
        reveal_strlit("9");
    }
    let out = if d == 0 {
        "0"
    } else if d == 1 {
        "1"
    } else if d == 2 {
        "2"
    } else if d == 3 {
        "3"
    } else if d == 4 {
        "4"
    } else if d == 5 {
        "5"
    } else if d == 6 {
        "6"
    } else if d == 7 {
        "7"
    } else if d == 8 {
        "8"
    } else {
        "9"
    };
    assert(out@ =~= seq![digit_char(d as nat)]);
    out
}

/// Writes `n` in decimal.
pub fn decimal_string(n: usize) -> (out: String)
    ensures
        out@ == decimal(n as nat),
    decreases n,
{
    if n < 10 {
        String::from_str(digit_str(n))
    } else {
        let mut out = decimal_string(n / 10);
        out.append(digit_str(n % 10));
        assert(out@ =~= decimal(n as nat));
        out
    }
}

/// A decimal number is made of digits only, so it holds no character of the
/// address syntax.
pub proof fn lemma_decimal_is_digits(n: nat)
    ensures
        decimal(n).len() > 0,
        forall|i: int| 0 <= i < decimal(n).len() ==> '0' <= #[trigger] decimal(n)[i] <= '9',
    decreases n,
{
    if n >= 10 {
        lemma_decimal_is_digits(n / 10);
    }
}

} // verus!

use vstd::prelude::*;

verus! {

/// The characters that the skip rule treats as insignificant whitespace.
pub open spec fn is_space(c: char) -> bool {
    c == ' ' || c == '\t' || c == '\r' || c == '\n'
}

pub open spec fn is_line_break(c: char) -> bool {
    c == '\r' || c == '\n'
}

/// Unicode White_Space: the characters that trimming removes.
pub open spec fn is_white(c: char) -> bool {
    ('\u{9}' <= c && c <= '\u{d}') || c == ' ' || c == '\u{85}' || c == '\u{a0}'
        || c == '\u{1680}' || ('\u{2000}' <= c && c <= '\u{200a}') || c == '\u{2028}'
        || c == '\u{2029}' || c == '\u{202f}' || c == '\u{205f}' || c == '\u{3000}'
}

/// Ends a text run. With `inline` set (a bare ingredient name) a closing
/// parenthesis belongs to the text.
pub open spec fn is_stop(c: char, inline: bool) -> bool {
    c == '>' || c == '#' || is_line_break(c) || (!inline && c == ')')
}

/// Where a run of whitespace and comments that starts at `i` ends.
/// `in_comment` says that `i` lies inside a comment, which runs up to the
/// next line break.
pub open spec fn skip_from(s: Seq<char>, i: int, in_comment: bool) -> int
    decreases s.len() - i,
{
    if i < 0 || i >= s.len() {
        i
    } else if in_comment {
        skip_from(s, i + 1, !is_line_break(s[i]))
    } else if is_space(s[i]) {
        skip_from(s, i + 1, false)
    } else if s[i] == '#' {
        skip_from(s, i + 1, true)
    } else {
        i
    }
}

/// The first position at or after `i` that is not whitespace or comment.
pub open spec fn skip_end(s: Seq<char>, i: int) -> int {
    skip_from(s, i, false)
}

/// The first position at or after `i` that holds a stop character (or the end).
pub open spec fn run_end(s: Seq<char>, i: int, inline: bool) -> int
    decreases s.len() - i,
{
    if 0 <= i < s.len() && !is_stop(s[i], inline) {
        run_end(s, i + 1, inline)
    } else {
        i
    }
}

/// The first position in `i..j` that is not white (or `j`).
pub open spec fn lead_end(s: Seq<char>, i: int, j: int) -> int
    decreases j - i,
{
    if i < j && is_white(s[i]) {
        lead_end(s, i + 1, j)
    } else {
        i
    }
}

/// The position just after the last character in `i..j` that is not white
/// (or `i`).
pub open spec fn trail_start(s: Seq<char>, i: int, j: int) -> int
    decreases j - i,
{
    if i < j && is_white(s[j - 1]) {
        trail_start(s, i, j - 1)
    } else {
        j
    }
}

/// The characters of `i..j` without leading and trailing white space.
pub open spec fn trimmed(s: Seq<char>, i: int, j: int) -> Seq<char> {
    let a = lead_end(s, i, j);
    s.subrange(a, trail_start(s, a, j))
}

pub proof fn lemma_skip_from_bounds(s: Seq<char>, i: int, in_comment: bool)
    requires
        0 <= i <= s.len(),
    ensures
        i <= skip_from(s, i, in_comment) <= s.len(),
    decreases s.len() - i,
{
    if i < s.len() {
        if in_comment {
            lemma_skip_from_bounds(s, i + 1, !is_line_break(s[i]));
        } else if is_space(s[i]) || s[i] == '#' {
            lemma_skip_from_bounds(s, i + 1, s[i] == '#');
        }
    }
}

pub proof fn lemma_run_end_bounds(s: Seq<char>, i: int, inline: bool)
    requires
        0 <= i <= s.len(),
    ensures
        i <= run_end(s, i, inline) <= s.len(),
    decreases s.len() - i,
{
    if i < s.len() && !is_stop(s[i], inline) {
        lemma_run_end_bounds(s, i + 1, inline);
    }
}

} // verus!

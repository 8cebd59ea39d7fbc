use vstd::prelude::*;
use crate::grammar::{instruction_at, list_at, recipe_at, source_at, text_at, token_at};
use crate::text::{
    is_line_break, is_space, lead_end, lemma_run_end_bounds, lemma_skip_from_bounds, run_end,
    skip_end, skip_from, trail_start, trimmed,
};

verus! {

/// A result found in `s`, with its end moved `d` positions on.
pub open spec fn shifted<T>(r: Option<(T, int)>, d: int) -> Option<(T, int)> {
    match r {
        Some((x, e)) => Some((x, e + d)),
        None => None,
    }
}

/// Whether a result ends after `i` and within `n` characters.
pub open spec fn ends_within<T>(r: Option<(T, int)>, i: int, n: int) -> bool {
    match r {
        Some((_, e)) => i < e <= n,
        None => true,
    }
}

pub proof fn lemma_skip_shift(a: Seq<char>, s: Seq<char>, i: int, c: bool)
    requires
        0 <= i,
    ensures
        skip_from(a + s, a.len() + i, c) == a.len() + skip_from(s, i, c),
    decreases s.len() - i,
{
    if i < s.len() {
        assert((a + s)[a.len() + i] == s[i]);
        if c {
            lemma_skip_shift(a, s, i + 1, !is_line_break(s[i]));
        } else if is_space(s[i]) || s[i] == '#' {
            lemma_skip_shift(a, s, i + 1, s[i] == '#');
        }
    }
}

proof fn lemma_run_shift(a: Seq<char>, s: Seq<char>, i: int, inline: bool)
    requires
        0 <= i,
    ensures
        run_end(a + s, a.len() + i, inline) == a.len() + run_end(s, i, inline),
    decreases s.len() - i,
{
    if i < s.len() {
        assert((a + s)[a.len() + i] == s[i]);
        lemma_run_shift(a, s, i + 1, inline);
    }
}

proof fn lemma_lead_shift(a: Seq<char>, s: Seq<char>, i: int, j: int)
    requires
        0 <= i <= j <= s.len(),
    ensures
        lead_end(a + s, a.len() + i, a.len() + j) == a.len() + lead_end(s, i, j),
        i <= lead_end(s, i, j) <= j,
    decreases j - i,
{
    if i < j {
        assert((a + s)[a.len() + i] == s[i]);
        lemma_lead_shift(a, s, i + 1, j);
    }
}

proof fn lemma_trail_shift(a: Seq<char>, s: Seq<char>, i: int, j: int)
    requires
        0 <= i <= j <= s.len(),
    ensures
        trail_start(a + s, a.len() + i, a.len() + j) == a.len() + trail_start(s, i, j),
        i <= trail_start(s, i, j) <= j,
    decreases j - i,
{
    if i < j {
        assert((a + s)[a.len() + j - 1] == s[j - 1]);
        lemma_trail_shift(a, s, i, j - 1);
    }
}

proof fn lemma_text_shift(a: Seq<char>, s: Seq<char>, i: int, inline: bool)
    requires
        0 <= i <= s.len(),
    ensures
        text_at(a + s, a.len() + i, inline) == shifted(text_at(s, i, inline), a.len() as int),
        ends_within(text_at(s, i, inline), i, s.len() as int),
{
    let t = a + s;
    let d = a.len() as int;
    lemma_skip_shift(a, s, i, false);
    lemma_skip_from_bounds(s, i, false);
    let j = skip_end(s, i);
    lemma_run_shift(a, s, j, inline);
    lemma_run_end_bounds(s, j, inline);
    let k = run_end(s, j, inline);
    if k > j {
        lemma_lead_shift(a, s, j, k);
        let x = lead_end(s, j, k);
        lemma_trail_shift(a, s, x, k);
        let y = trail_start(s, x, k);
        assert(t.subrange(d + x, d + y) =~= s.subrange(x, y));
        assert(trimmed(t, d + j, d + k) == trimmed(s, j, k));
    }
}

proof fn lemma_token_shift(a: Seq<char>, s: Seq<char>, i: int, c: char)
    requires
        0 <= i <= s.len(),
    ensures
        token_at(a + s, a.len() + i, c) == token_at(s, i, c),
        skip_end(a + s, a.len() + i) == a.len() + skip_end(s, i),
        i <= skip_end(s, i) <= s.len(),
{
    lemma_skip_shift(a, s, i, false);
    lemma_skip_from_bounds(s, i, false);
    let j = skip_end(s, i);
    if 0 <= j < s.len() {
        assert((a + s)[a.len() + j] == s[j]);
    }
}

pub proof fn lemma_recipe_shift(a: Seq<char>, s: Seq<char>, i: int)
    requires
        0 <= i <= s.len(),
    ensures
        recipe_at(a + s, a.len() + i) == shifted(recipe_at(s, i), a.len() as int),
        ends_within(recipe_at(s, i), i, s.len() as int),
    decreases s.len() - i, 3int,
{
    lemma_text_shift(a, s, i, false);
    if let Some((_, k)) = text_at(s, i, false) {
        lemma_token_shift(a, s, k, '>');
        if token_at(s, k, '>') {
            lemma_list_shift(a, s, skip_end(s, k) + 1);
        }
    }
}

proof fn lemma_list_shift(a: Seq<char>, s: Seq<char>, i: int)
    requires
        0 <= i <= s.len(),
    ensures
        list_at(a + s, a.len() + i) == shifted(list_at(s, i), a.len() as int),
        ends_within(list_at(s, i), i, s.len() as int),
    decreases s.len() - i, 2int,
{
    lemma_instruction_shift(a, s, i);
    if let Some((_, j)) = instruction_at(s, i) {
        lemma_token_shift(a, s, j, '>');
        if token_at(s, j, '>') {
            lemma_list_shift(a, s, skip_end(s, j) + 1);
        }
    }
}

pub proof fn lemma_instruction_shift(a: Seq<char>, s: Seq<char>, i: int)
    requires
        0 <= i <= s.len(),
    ensures
        instruction_at(a + s, a.len() + i) == shifted(instruction_at(s, i), a.len() as int),
        ends_within(instruction_at(s, i), i, s.len() as int),
    decreases s.len() - i, 1int,
{
    let d = a.len() as int;
    lemma_token_shift(a, s, i, '?');
    let p = if token_at(s, i, '?') {
        skip_end(s, i) + 1
    } else {
        i
    };
    assert((if token_at(a + s, d + i, '?') { skip_end(a + s, d + i) + 1 } else { d + i }) == d + p);
    lemma_token_shift(a, s, p, '+');
    if token_at(s, p, '+') {
        lemma_source_shift(a, s, skip_end(s, p) + 1);
    }
    lemma_text_shift(a, s, i, false);
}

pub proof fn lemma_source_shift(a: Seq<char>, s: Seq<char>, i: int)
    requires
        0 <= i <= s.len(),
    ensures
        source_at(a + s, a.len() + i) == shifted(source_at(s, i), a.len() as int),
        ends_within(source_at(s, i), i, s.len() as int),
    decreases s.len() - i, 0int,
{
    lemma_token_shift(a, s, i, '(');
    if token_at(s, i, '(') {
        lemma_recipe_shift(a, s, skip_end(s, i) + 1);
        if let Some((_, u)) = recipe_at(s, skip_end(s, i) + 1) {
            lemma_token_shift(a, s, u, ')');
        }
    }
    lemma_text_shift(a, s, i, true);
}

} // verus!

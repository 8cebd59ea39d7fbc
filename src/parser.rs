use vstd::prelude::*;
use crate::ast::{instructions_view, lemma_recipe_view, Instruction, InstructionV, Recipe, RecipeV};
use crate::grammar::{instruction_at, list_at, parse_spec, recipe_at, source_at, text_at, token_at};
use crate::text::{is_white, lead_end, run_end, skip_end, skip_from, trail_start, trimmed};

verus! {

pub open spec fn recipe_result(r: Option<(Recipe, usize)>) -> Option<(RecipeV, int)> {
    match r {
        Some((x, e)) => Some((x.view(), e as int)),
        None => None,
    }
}

pub open spec fn list_result(r: Option<(Vec<Instruction>, usize)>) -> Option<(Seq<InstructionV>, int)> {
    match r {
        Some((v, e)) => Some((instructions_view(&v), e as int)),
        None => None,
    }
}

pub open spec fn instruction_result(r: Option<(Instruction, usize)>) -> Option<(InstructionV, int)> {
    match r {
        Some((x, e)) => Some((x.view(), e as int)),
        None => None,
    }
}

pub open spec fn text_result(r: Option<(String, usize)>) -> Option<(Seq<char>, int)> {
    match r {
        Some((t, e)) => Some((t@, e as int)),
        None => None,
    }
}

/// Whether `r` ends strictly after `i` and within `s`.
pub open spec fn advances<T>(r: Option<(T, usize)>, i: usize, len: nat) -> bool {
    match r {
        Some((_, e)) => i < e <= len,
        None => true,
    }
}

/// Relies on `String`'s `FromIterator<char>`, which appends the characters in order.
#[verifier::external_body]
fn string_of(v: Vec<char>) -> (r: String)
    ensures
        r@ == v@,
{
    String::from_iter(v)
}

/// The characters of `s`, in order.
pub fn chars_of(s: &str) -> (r: Vec<char>)
    ensures
        r@ == s@,
{
    let mut out: Vec<char> = Vec::new();
    let mut it = s.chars();
    for c in iter: it
        invariant
            out@ == iter.history,
    {
        out.push(c);
    }
    out
}

fn is_white_char(c: char) -> (r: bool)
    ensures
        r == is_white(c),
{
    ('\u{9}' <= c && c <= '\u{d}') || c == ' ' || c == '\u{85}' || c == '\u{a0}'
        || c == '\u{1680}' || ('\u{2000}' <= c && c <= '\u{200a}') || c == '\u{2028}'
        || c == '\u{2029}' || c == '\u{202f}' || c == '\u{205f}' || c == '\u{3000}'
}

fn skip(s: &Vec<char>, i: usize) -> (r: usize)
    requires
        i <= s.len(),
    ensures
        r == skip_end(s@, i as int),
        i <= r <= s.len(),
{
    let mut k = i;
    let mut in_comment = false;
    while k < s.len()
        invariant
            i <= k <= s.len(),
            skip_from(s@, k as int, in_comment) == skip_end(s@, i as int),
        decreases s.len() - k,
    {
        let c = s[k];
        if in_comment {
            in_comment = !(c == '\r' || c == '\n');
        } else if c == '#' {
            in_comment = true;
        } else if !(c == ' ' || c == '\t' || c == '\r' || c == '\n') {
            return k;
        }
        k += 1;
    }
    k
}

fn token(s: &Vec<char>, i: usize, c: char) -> (r: bool)
    requires
        i <= s.len(),
    ensures
        r == token_at(s@, i as int, c),
{
    let j = skip(s, i);
    j < s.len() && s[j] == c
}

fn run(s: &Vec<char>, i: usize, inline: bool) -> (r: usize)
    requires
        i <= s.len(),
    ensures
        r == run_end(s@, i as int, inline),
        i <= r <= s.len(),
{
    let mut k = i;
    while k < s.len()
        invariant
            i <= k <= s.len(),
            run_end(s@, k as int, inline) == run_end(s@, i as int, inline),
        decreases s.len() - k,
    {
        let c = s[k];
        if c == '>' || c == '#' || c == '\r' || c == '\n' || (!inline && c == ')') {
            return k;
        }
        k += 1;
    }
    k
}

fn trim_span(s: &Vec<char>, j: usize, k: usize) -> (r: String)
    requires
        j <= k <= s.len(),
    ensures
        r@ == trimmed(s@, j as int, k as int),
{
    let mut a = j;
    while a < k && is_white_char(s[a])
        invariant
            j <= a <= k <= s.len(),
            lead_end(s@, a as int, k as int) == lead_end(s@, j as int, k as int),
        decreases k - a,
    {
        a += 1;
    }
    let mut b = k;
    while a < b && is_white_char(s[b - 1])
        invariant
            a <= b <= k <= s.len(),
            trail_start(s@, a as int, b as int) == trail_start(s@, a as int, k as int),
        decreases b - a,
    {
        b -= 1;
    }
    let mut out: Vec<char> = Vec::new();
    let mut p = a;
    while p < b
        invariant
            a <= p <= b <= s.len(),
            out@ == s@.subrange(a as int, p as int),
        decreases b - p,
    {
        out.push(s[p]);
        p += 1;
        assert(out@ =~= s@.subrange(a as int, p as int));
    }
    string_of(out)
}

fn parse_text(s: &Vec<char>, i: usize, inline: bool) -> (r: Option<(String, usize)>)
    requires
        i <= s.len(),
    ensures
        text_result(r) == text_at(s@, i as int, inline),
        advances(r, i, s@.len()),
{
    let j = skip(s, i);
    let k = run(s, j, inline);
    if k > j {
        Some((trim_span(s, j, k), k))
    } else {
        None
    }
}

fn parse_recipe(s: &Vec<char>, i: usize) -> (r: Option<(Recipe, usize)>)
    requires
        i <= s.len(),
    ensures
        recipe_result(r) == recipe_at(s@, i as int),
        advances(r, i, s@.len()),
    decreases s.len() - i, 3int,
{
    match parse_text(s, i, false) {
        None => None,
        Some((base, k)) => {
            if token(s, k, '>') {
                let m = skip(s, k);
                match parse_list(s, m + 1) {
                    Some((instructions, e)) => {
                        let r = Recipe { base, instructions };
                        proof {
                            lemma_recipe_view(&r);
                        }
                        return Some((r, e));
                    },
                    None => {},
                }
            }
            let r = Recipe { base, instructions: Vec::new() };
            proof {
                lemma_recipe_view(&r);
                assert(instructions_view(&r.instructions) =~= Seq::empty());
            }
            Some((r, k))
        },
    }
}

fn parse_list(s: &Vec<char>, i: usize) -> (r: Option<(Vec<Instruction>, usize)>)
    requires
        i <= s.len(),
    ensures
        list_result(r) == list_at(s@, i as int),
        advances(r, i, s@.len()),
    decreases s.len() - i, 2int,
{
    match parse_instruction(s, i) {
        None => None,
        Some((x, j)) => {
            let ghost xv = x.view();
            if token(s, j, '>') {
                let m = skip(s, j);
                match parse_list(s, m + 1) {
                    Some((xs, e)) => {
                        let ghost rest = instructions_view(&xs);
                        let mut v = xs;
                        v.insert(0, x);
                        assert(instructions_view(&v) =~= seq![xv] + rest);
                        return Some((v, e));
                    },
                    None => {
                        let mut v: Vec<Instruction> = Vec::new();
                        v.push(x);
                        assert(instructions_view(&v) =~= seq![xv]);
                        return Some((v, j));
                    },
                }
            }
            let mut v: Vec<Instruction> = Vec::new();
            v.push(x);
            assert(instructions_view(&v) =~= seq![xv]);
            Some((v, j))
        },
    }
}

fn parse_instruction(s: &Vec<char>, i: usize) -> (r: Option<(Instruction, usize)>)
    requires
        i <= s.len(),
    ensures
        instruction_result(r) == instruction_at(s@, i as int),
        advances(r, i, s@.len()),
    decreases s.len() - i, 1int,
{
    let optional = token(s, i, '?');
    let p = if optional {
        skip(s, i) + 1
    } else {
        i
    };
    if token(s, p, '+') {
        let q = skip(s, p);
        match parse_source(s, q + 1) {
            Some((recipe, e)) => {
                return Some((Instruction::AddIngredients { recipe, optional }, e));
            },
            None => {},
        }
    }
    match parse_text(s, i, false) {
        Some((t, k)) => Some((Instruction::Process(t), k)),
        None => None,
    }
}

fn parse_source(s: &Vec<char>, i: usize) -> (r: Option<(Recipe, usize)>)
    requires
        i <= s.len(),
    ensures
        recipe_result(r) == source_at(s@, i as int),
        advances(r, i, s@.len()),
    decreases s.len() - i, 0int,
{
    if token(s, i, '(') {
        let t = skip(s, i);
        match parse_recipe(s, t + 1) {
            Some((r, u)) => {
                if token(s, u, ')') {
                    let v = skip(s, u);
                    return Some((r, v + 1));
                }
            },
            None => {},
        }
    }
    match parse_text(s, i, true) {
        Some((base, w)) => {
            let r = Recipe { base, instructions: Vec::new() };
            proof {
                lemma_recipe_view(&r);
                assert(instructions_view(&r.instructions) =~= Seq::empty());
            }
            Some((r, w))
        },
        None => None,
    }
}

} // verus!

verus! {

/// What a failed parse found at the position where it stopped.
#[derive(Debug, Clone, Copy, PartialEq, Eq, Structural)]
pub enum ParseErrorKind {
    /// No recipe base text where a recipe must begin.
    MissingRecipe,
    /// Text left over after a complete recipe.
    TrailingInput,
}

/// A failed parse: the kind of failure and the character position at which the
/// unread input starts.
#[derive(Debug, Clone, Copy, PartialEq, Eq, Structural)]
pub struct ParseError {
    pub position: usize,
    pub kind: ParseErrorKind,
}

/// The error that a parse of `s` reports when it fails.
pub open spec fn parse_error_spec(s: Seq<char>) -> ParseError {
    let start = skip_end(s, 0);
    match recipe_at(s, start) {
        None => ParseError { position: start as usize, kind: ParseErrorKind::MissingRecipe },
        Some((_, e)) => ParseError {
            position: skip_end(s, e) as usize,
            kind: ParseErrorKind::TrailingInput,
        },
    }
}

/// Parses a whole input into a recipe. The input must be one recipe with
/// only whitespace and comments around it. Nested recipes are parsed
/// recursively, so the nesting depth is bounded by the call stack.
pub fn parse(input: &str) -> (r: Result<Recipe, ParseError>)
    ensures
        match r {
            Ok(x) => parse_spec(input@) == Some(x.view()),
            Err(e) => parse_spec(input@) is None && e == parse_error_spec(input@),
        },
{
    let s = chars_of(input);
    let start = skip(&s, 0);
    match parse_recipe(&s, start) {
        None => Err(ParseError { position: start, kind: ParseErrorKind::MissingRecipe }),
        Some((x, e)) => {
            let end = skip(&s, e);
            if end == s.len() {
                Ok(x)
            } else {
                Err(ParseError { position: end, kind: ParseErrorKind::TrailingInput })
            }
        },
    }
}

} // verus!

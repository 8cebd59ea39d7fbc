use vstd::prelude::*;
use crate::ast::{InstructionV, RecipeV};
use crate::text::{lemma_run_end_bounds, lemma_skip_from_bounds, run_end, skip_end, trimmed};

verus! {

/// Whether position `i` holds the character `c` once whitespace and comments
/// are skipped; if so, `skip_end(s, i) + 1` is the position after it.
pub open spec fn token_at(s: Seq<char>, i: int, c: char) -> bool {
    let j = skip_end(s, i);
    0 <= j < s.len() && s[j] == c
}

/// A text run after skipping: its trimmed text and the position where it ends.
/// The run must not be empty.
pub open spec fn text_at(s: Seq<char>, i: int, inline: bool) -> Option<(Seq<char>, int)> {
    let j = skip_end(s, i);
    let k = run_end(s, j, inline);
    if k > j {
        Some((trimmed(s, j, k), k))
    } else {
        None
    }
}

/// `recipe := base_text ( '>' instruction_list )?`, from position `i`: the
/// recipe and the position after it. An instruction list that fails leaves
/// the recipe as a bare base ending after its text.
pub open spec fn recipe_at(s: Seq<char>, i: int) -> Option<(RecipeV, int)>
    decreases s.len() - i, 3int,
    via recipe_at_decreases
{
    match text_at(s, i, false) {
        None => None,
        Some((base, k)) => {
            let bare = RecipeV { base, instructions: Seq::empty() };
            if token_at(s, k, '>') {
                match list_at(s, skip_end(s, k) + 1) {
                    Some((instructions, e)) => Some((RecipeV { base, instructions }, e)),
                    None => Some((bare, k)),
                }
            } else {
                Some((bare, k))
            }
        },
    }
}

/// `instruction ( '>' instruction )*` from position `i`. A separator that is not
/// followed by an instruction is left unread.
pub open spec fn list_at(s: Seq<char>, i: int) -> Option<(Seq<InstructionV>, int)>
    decreases s.len() - i, 2int,
{
    match instruction_at(s, i) {
        None => None,
        Some((x, j)) => {
            if i < j <= s.len() && token_at(s, j, '>') {
                proof {
                    lemma_skip_from_bounds(s, j, false);
                }
                match list_at(s, skip_end(s, j) + 1) {
                    Some((xs, e)) => Some((seq![x] + xs, e)),
                    None => Some((seq![x], j)),
                }
            } else {
                Some((seq![x], j))
            }
        },
    }
}

/// `instruction := '?'? '+' ingredient_source | process_text`, the first form
/// tried first.
pub open spec fn instruction_at(s: Seq<char>, i: int) -> Option<(InstructionV, int)>
    decreases s.len() - i, 1int,
    via instruction_at_decreases
{
    let optional = token_at(s, i, '?');
    let p = if optional { skip_end(s, i) + 1 } else { i };
    let added = if token_at(s, p, '+') { source_at(s, skip_end(s, p) + 1) } else { None };
    match added {
        Some((recipe, e)) => Some((InstructionV::AddIngredients { recipe, optional }, e)),
        None => match text_at(s, i, false) {
            Some((t, k)) => Some((InstructionV::Process(t), k)),
            None => None,
        },
    }
}

/// `ingredient_source := '(' recipe ')' | inline_text`, the first form tried
/// first; an inline name is a recipe without steps.
pub open spec fn source_at(s: Seq<char>, i: int) -> Option<(RecipeV, int)>
    decreases s.len() - i, 0int,
    via source_at_decreases
{
    let nested = if token_at(s, i, '(') {
        match recipe_at(s, skip_end(s, i) + 1) {
            Some((r, u)) => if token_at(s, u, ')') {
                Some((r, skip_end(s, u) + 1))
            } else {
                None
            },
            None => None,
        }
    } else {
        None
    };
    match nested {
        Some(x) => Some(x),
        None => match text_at(s, i, true) {
            Some((base, w)) => Some((RecipeV { base, instructions: Seq::empty() }, w)),
            None => None,
        },
    }
}

#[via_fn]
proof fn recipe_at_decreases(s: Seq<char>, i: int) {
    if 0 <= i <= s.len() {
        lemma_skip_from_bounds(s, i, false);
        lemma_run_end_bounds(s, skip_end(s, i), false);
        let k = run_end(s, skip_end(s, i), false);
        lemma_skip_from_bounds(s, k, false);
    }
}

#[via_fn]
proof fn instruction_at_decreases(s: Seq<char>, i: int) {
    if 0 <= i <= s.len() {
        lemma_skip_from_bounds(s, i, false);
        let p = if token_at(s, i, '?') { skip_end(s, i) + 1 } else { i };
        lemma_skip_from_bounds(s, p, false);
    }
}

#[via_fn]
proof fn source_at_decreases(s: Seq<char>, i: int) {
    if 0 <= i <= s.len() {
        lemma_skip_from_bounds(s, i, false);
    }
}

/// The whole input as one recipe, with only whitespace and comments around it.
pub open spec fn parse_spec(s: Seq<char>) -> Option<RecipeV> {
    match recipe_at(s, skip_end(s, 0)) {
        Some((r, e)) => if skip_end(s, e) == s.len() {
            Some(r)
        } else {
            None
        },
        None => None,
    }
}

} // verus!

use vstd::prelude::*;
use crate::ast::{InstructionV, RecipeV};
use crate::grammar::{instruction_at, list_at, parse_spec, recipe_at, source_at, text_at, token_at};
use crate::render::{render_instruction, render_lines, render_nested_steps, render_spec};
use crate::shift::{
    lemma_instruction_shift, lemma_recipe_shift, lemma_skip_shift, lemma_source_shift, shifted,
};
use crate::text::{
    is_line_break, is_space, is_stop, lead_end, lemma_skip_from_bounds, run_end, skip_end, skip_from,
    trimmed,
};

verus! {

proof fn lemma_skip_spaces(s: Seq<char>, i: int)
    requires
        0 <= i <= s.len(),
        forall|k: int| 0 <= k < s.len() ==> s[k] != '#',
    ensures
        i <= skip_end(s, i) <= s.len(),
        skip_end(s, i) < s.len() ==> !is_space(s[skip_end(s, i)]),
        lead_end(s, i, s.len() as int) == lead_end(s, skip_end(s, i), s.len() as int),
    decreases s.len() - i,
{
    if i < s.len() && is_space(s[i]) {
        lemma_skip_spaces(s, i + 1);
    }
}

proof fn lemma_run_to_end(s: Seq<char>, i: int)
    requires
        0 <= i <= s.len(),
        forall|k: int| 0 <= k < s.len() ==> !is_stop(#[trigger] s[k], false),
    ensures
        run_end(s, i, false) == s.len(),
    decreases s.len() - i,
{
    if i < s.len() {
        lemma_run_to_end(s, i + 1);
    }
}

/// An input made of base text alone (no `>`, `)`, `#` or line break, and not
/// only whitespace) parses to a recipe without steps whose base is the input
/// trimmed.
pub proof fn law_base_text_alone(s: Seq<char>)
    requires
        forall|k: int| 0 <= k < s.len() ==> !is_stop(#[trigger] s[k], false),
        exists|k: int| 0 <= k < s.len() && !is_space(#[trigger] s[k]),
    ensures
        parse_spec(s) == Some(RecipeV { base: trimmed(s, 0, s.len() as int), instructions: Seq::empty() }),
{
    assert forall|k: int| 0 <= k < s.len() implies s[k] != '#' by {
        assert(!is_stop(s[k], false));
    }
    lemma_skip_spaces(s, 0);
    let j = skip_end(s, 0);
    let k0 = choose|k: int| 0 <= k < s.len() && !is_space(#[trigger] s[k]);
    if j == s.len() {
        assert(skip_from(s, 0, false) == s.len());
        lemma_no_space_before_skip_end(s, 0, k0);
    }
    assert(j < s.len());
    assert(skip_end(s, j) == j);
    lemma_run_to_end(s, j);
    assert(text_at(s, j, false) == Some((trimmed(s, j, s.len() as int), s.len() as int)));
    assert(trimmed(s, j, s.len() as int) == trimmed(s, 0, s.len() as int));
    assert(skip_end(s, s.len() as int) == s.len());
}

proof fn lemma_no_space_before_skip_end(s: Seq<char>, i: int, k: int)
    requires
        0 <= i <= k < s.len(),
        !is_space(s[k]),
        forall|m: int| 0 <= m < s.len() ==> s[m] != '#',
    ensures
        skip_end(s, i) <= k,
    decreases k - i,
{
    if is_space(s[i]) {
        lemma_no_space_before_skip_end(s, i + 1, k);
    }
}

/// An added ingredient is optional exactly when a `?` stands before its `+`.
pub proof fn law_optional_marker(s: Seq<char>, i: int)
    ensures
        instruction_at(s, i) matches Some((InstructionV::AddIngredients { optional, .. }, _))
            ==> optional == token_at(s, i, '?'),
{
}

/// A `+` followed by a parenthesized recipe adds that whole recipe, with its
/// own steps, as the ingredient.
pub proof fn law_parenthesized_source(s: Seq<char>, i: int)
    requires
        token_at(s, i, '('),
    ensures
        match recipe_at(s, skip_end(s, i) + 1) {
            Some((r, u)) => token_at(s, u, ')') ==> source_at(s, i) == Some((r, skip_end(s, u) + 1)),
            None => true,
        },
{
}

/// A step list with nothing but whitespace and comments where it should begin
/// is an error.
pub proof fn law_empty_list_fails(s: Seq<char>, i: int)
    requires
        skip_end(s, i) == s.len(),
    ensures
        list_at(s, i) is None,
{
    assert(run_end(s, s.len() as int, false) == s.len());
    assert(text_at(s, i, false) is None);
    assert(instruction_at(s, i) is None);
}

/// An input whose base is followed by a `>` and then only whitespace and
/// comments fails to parse.
pub proof fn law_trailing_arrow_fails(s: Seq<char>)
    ensures
        match text_at(s, skip_end(s, 0), false) {
            Some((_, k)) => token_at(s, k, '>') && skip_end(s, skip_end(s, k) + 1) == s.len()
                ==> parse_spec(s) is None,
            None => true,
        },
{
    if let Some((_, k)) = text_at(s, skip_end(s, 0), false) {
        if token_at(s, k, '>') && skip_end(s, skip_end(s, k) + 1) == s.len() {
            law_empty_list_fails(s, skip_end(s, k) + 1);
        }
    }
}

/// Text left after a complete recipe, other than whitespace and comments, makes
/// the parse fail.
pub proof fn law_trailing_input_fails(s: Seq<char>)
    ensures
        match recipe_at(s, skip_end(s, 0)) {
            Some((_, e)) => skip_end(s, e) < s.len() ==> parse_spec(s) is None,
            None => true,
        },
{
}

/// Whether the closing phrase `完成！` starts at position `k` of `q`.
pub open spec fn phrase_at(q: Seq<char>, k: int) -> bool {
    0 <= k && k + 3 <= q.len() && q[k] == '完' && q[k + 1] == '成' && q[k + 2] == '！'
}

/// Whether the closing phrase occurs nowhere in `q`.
pub open spec fn phrase_free(q: Seq<char>) -> bool {
    forall|k: int| !#[trigger] phrase_at(q, k)
}

/// Whether no text of the recipe (its base, its steps, its ingredients'
/// texts) holds the closing phrase.
pub open spec fn recipe_text_free(r: RecipeV) -> bool
    decreases r, 1int,
{
    phrase_free(r.base) && forall|i: int|
        0 <= i < r.instructions.len() ==> instruction_text_free(#[trigger] r.instructions[i])
}

pub open spec fn instruction_text_free(x: InstructionV) -> bool
    decreases x, 0int,
{
    match x {
        InstructionV::Process(t) => phrase_free(t),
        InstructionV::AddIngredients { recipe, .. } => recipe_text_free(recipe),
    }
}

/// Whether `b` can follow any text without completing the phrase across the seam.
pub open spec fn safe_start(b: Seq<char>) -> bool {
    b.len() == 0 || (b[0] != '成' && b[0] != '！')
}

/// Whether no part of the phrase can end `a` and be completed by what follows.
pub open spec fn safe_end(a: Seq<char>) -> bool {
    a.len() == 0 || (a.last() != '完' && a.last() != '成')
}

proof fn lemma_free_concat(a: Seq<char>, b: Seq<char>)
    requires
        phrase_free(a),
        phrase_free(b),
        safe_start(b) || safe_end(a),
    ensures
        phrase_free(a + b),
{
    let q = a + b;
    assert forall|k: int| !#[trigger] phrase_at(q, k) by {
        if phrase_at(q, k) {
            if k + 3 <= a.len() {
                assert(phrase_at(a, k));
            } else if k >= a.len() {
                assert(phrase_at(b, k - a.len()));
            } else if k + 1 == a.len() {
                assert(q[k + 1] == b[0]);
                assert(a.last() == q[k]);
            } else {
                assert(q[k + 2] == b[0]);
                assert(a.last() == q[k + 1]);
            }
        }
    }
}

proof fn lemma_literals()
    ensures
        phrase_free("「"@) && safe_start("「"@) && "「"@ =~= seq!['「'],
        phrase_free("」"@) && safe_start("」"@),
        phrase_free("お好みで　"@) && safe_start("お好みで　"@) && "お好みで　"@[0] == 'お'
            && "お好みで　"@.len() == 5,
        phrase_free("　を"@) && safe_start("　を"@) && safe_end("　を"@),
        phrase_free("加える」"@) && safe_start("加える」"@),
        phrase_free("　"@) && safe_start("　"@) && "　"@ =~= seq!['　'],
        phrase_free("　して"@) && safe_start("　して"@),
        phrase_free("\n"@) && safe_start("\n"@) && "\n"@ =~= seq!['\n'],
        phrase_free("　をして"@) && safe_start("　をして"@),
        phrase_free("　に"@) && safe_start("　に"@),
        "\n完成！"@ =~= seq!['\n', '完', '成', '！'],
{
    reveal_strlit("「");
    reveal_strlit("」");
    reveal_strlit("お好みで　");
    reveal_strlit("　を");
    reveal_strlit("加える」");
    reveal_strlit("　");
    reveal_strlit("　して");
    reveal_strlit("\n");
    reveal_strlit("　をして");
    reveal_strlit("　に");
    reveal_strlit("\n完成！");
}

proof fn lemma_instruction_free(x: InstructionV)
    requires
        instruction_text_free(x),
    ensures
        phrase_free(render_instruction(x)),
        render_instruction(x).len() > 0,
        render_instruction(x)[0] == '「' || render_instruction(x)[0] == 'お',
    decreases x, 0int,
{
    lemma_literals();
    match x {
        InstructionV::Process(t) => {
            assert(safe_end("「"@));
            lemma_free_concat("「"@, t);
            lemma_free_concat("「"@ + t, "」"@);
            assert(("「"@ + t + "」"@)[0] == '「');
        },
        InstructionV::AddIngredients { recipe, optional } => {
            let lead: Seq<char> = if optional {
                "お好みで　"@
            } else {
                Seq::empty()
            };
            let xs = recipe.instructions;
            assert(phrase_free(Seq::<char>::empty()));
            lemma_nested_free(xs, xs.len() as int);
            lemma_free_concat(lead, "「"@);
            assert((lead + "「"@).last() == '「');
            lemma_free_concat(lead + "「"@, recipe.base);
            lemma_free_concat(lead + "「"@ + recipe.base, "　を"@);
            lemma_free_concat(lead + "「"@ + recipe.base + "　を"@, render_nested_steps(xs, xs.len() as int));
            lemma_free_concat(
                lead + "「"@ + recipe.base + "　を"@ + render_nested_steps(xs, xs.len() as int),
                "加える」"@,
            );
            let whole = lead + "「"@ + recipe.base + "　を"@ + render_nested_steps(xs, xs.len() as int)
                + "加える」"@;
            assert(whole == render_instruction(x));
            assert(whole[0] == (lead + "「"@)[0]);
            assert(optional ==> whole[0] == 'お');
            assert(!optional ==> lead + "「"@ =~= "「"@);
        },
    }
}

proof fn lemma_nested_free(xs: Seq<InstructionV>, n: int)
    requires
        forall|i: int| 0 <= i < xs.len() ==> instruction_text_free(#[trigger] xs[i]),
    ensures
        phrase_free(render_nested_steps(xs, n)),
        safe_start(render_nested_steps(xs, n)),
    decreases xs, n,
{
    lemma_literals();
    if 0 < n <= xs.len() {
        lemma_nested_free(xs, n - 1);
        lemma_instruction_free(xs[n - 1]);
        let a = render_nested_steps(xs, n - 1);
        lemma_free_concat(a, "　"@);
        lemma_free_concat(a + "　"@, render_instruction(xs[n - 1]));
        lemma_free_concat(a + "　"@ + render_instruction(xs[n - 1]), "　して"@);
        assert(a.len() == 0 ==> (a + "　"@ + render_instruction(xs[n - 1]) + "　して"@)[0] == '　');
        assert(a.len() > 0 ==> (a + "　"@ + render_instruction(xs[n - 1]) + "　して"@)[0] == a[0]);
    } else {
        assert(phrase_free(render_nested_steps(xs, n)));
    }
}

proof fn lemma_lines_free(xs: Seq<InstructionV>, n: int)
    requires
        forall|i: int| 0 <= i < xs.len() ==> instruction_text_free(#[trigger] xs[i]),
    ensures
        phrase_free(render_lines(xs, n)),
        safe_start(render_lines(xs, n)),
    decreases n,
{
    lemma_literals();
    if 0 < n <= xs.len() {
        lemma_lines_free(xs, n - 1);
        lemma_instruction_free(xs[n - 1]);
        let a = render_lines(xs, n - 1);
        lemma_free_concat(a, "\n"@);
        lemma_free_concat(a + "\n"@, render_instruction(xs[n - 1]));
        lemma_free_concat(a + "\n"@ + render_instruction(xs[n - 1]), "　をして"@);
        assert(a.len() == 0 ==> (a + "\n"@ + render_instruction(xs[n - 1]) + "　をして"@)[0] == '\n');
        assert(a.len() > 0 ==> (a + "\n"@ + render_instruction(xs[n - 1]) + "　をして"@)[0] == a[0]);
    } else {
        assert(phrase_free(render_lines(xs, n)));
    }
}

/// The text of a parsed recipe ends with the closing phrase `完成！` and holds it
/// nowhere else, as long as none of the recipe's own texts holds the phrase.
pub proof fn law_closing_phrase_once(s: Seq<char>)
    requires
        parse_spec(s) is Some,
        recipe_text_free(parse_spec(s)->0),
    ensures
        phrase_at(render_spec(parse_spec(s)->0), render_spec(parse_spec(s)->0).len() - 3),
        forall|k: int|
            #[trigger] phrase_at(render_spec(parse_spec(s)->0), k) ==> k == render_spec(
                parse_spec(s)->0,
            ).len() - 3,
{
    let r = parse_spec(s)->0;
    let xs = r.instructions;
    lemma_literals();
    let x: Seq<char> = if xs.len() > 0 {
        "　に"@
    } else {
        Seq::empty()
    };
    assert(phrase_free(Seq::<char>::empty()));
    lemma_lines_free(xs, xs.len() as int);
    lemma_free_concat(r.base, x);
    lemma_free_concat(r.base + x, render_lines(xs, xs.len() as int));
    let p = r.base + x + render_lines(xs, xs.len() as int);
    let q = p + "\n完成！"@;
    assert(q == render_spec(r));
    assert(q[p.len() as int] == '\n');
    assert forall|k: int| #[trigger] phrase_at(q, k) implies k == q.len() - 3 by {
        if k + 3 <= p.len() {
            assert(phrase_at(p, k));
        } else if k < p.len() {
            assert(q[p.len() as int] == '\n');
        }
    }
}

/// A prefix that the skip rule passes over entirely leaves the parse as it was.
proof fn lemma_skipped_prefix(w: Seq<char>, s: Seq<char>)
    requires
        skip_end(w + s, 0) == skip_from(w + s, w.len() as int, false),
    ensures
        parse_spec(w + s) == parse_spec(s),
{
    let t = w + s;
    let d = w.len() as int;
    lemma_skip_shift(w, s, 0, false);
    lemma_skip_from_bounds(s, 0, false);
    let j = skip_end(s, 0);
    lemma_recipe_shift(w, s, j);
    if let Some((_, e)) = recipe_at(s, j) {
        lemma_skip_shift(w, s, e, false);
        assert(t.len() == d + s.len());
    }
}

/// Whether `w` from position `i` on is made only of whitespace and comments,
/// every comment closed by a line break. `in_comment` says that `i` lies inside
/// a comment.
pub open spec fn blank_from(w: Seq<char>, i: int, in_comment: bool) -> bool
    decreases w.len() - i,
{
    if i < 0 || i >= w.len() {
        !in_comment
    } else if in_comment {
        blank_from(w, i + 1, !is_line_break(w[i]))
    } else if is_space(w[i]) {
        blank_from(w, i + 1, false)
    } else if w[i] == '#' {
        blank_from(w, i + 1, true)
    } else {
        false
    }
}

/// Whether `w` is made only of whitespace and comments closed by line breaks.
pub open spec fn is_blank(w: Seq<char>) -> bool {
    blank_from(w, 0, false)
}

proof fn lemma_skip_over_blank(w: Seq<char>, v: Seq<char>, i: int, c: bool)
    requires
        0 <= i <= w.len(),
        blank_from(w, i, c),
    ensures
        skip_from(w + v, i, c) == skip_from(w + v, w.len() as int, false),
    decreases w.len() - i,
{
    if i < w.len() {
        assert((w + v)[i] == w[i]);
        if c {
            lemma_skip_over_blank(w, v, i + 1, !is_line_break(w[i]));
        } else {
            lemma_skip_over_blank(w, v, i + 1, w[i] == '#');
        }
    }
}

/// Whitespace and comment lines put before an input do not change what it
/// parses to.
pub proof fn law_leading_blank(w: Seq<char>, s: Seq<char>)
    requires
        is_blank(w),
    ensures
        parse_spec(w + s) == parse_spec(s),
{
    lemma_skip_over_blank(w, s, 0, false);
    lemma_skipped_prefix(w, s);
}

proof fn lemma_skip_fixed(s: Seq<char>, i: int, c: bool)
    requires
        0 <= i <= s.len(),
    ensures
        skip_end(s, skip_from(s, i, c)) == skip_from(s, i, c),
    decreases s.len() - i,
{
    if i < s.len() {
        if c {
            lemma_skip_fixed(s, i + 1, !is_line_break(s[i]));
        } else if is_space(s[i]) || s[i] == '#' {
            lemma_skip_fixed(s, i + 1, s[i] == '#');
        }
    }
}

/// Skipping from the seam of `u + w + v` passes over the blank `w` and lands
/// where skipping from the seam of `u + v` lands, moved by `w`'s length.
proof fn lemma_blank_insert(u: Seq<char>, w: Seq<char>, v: Seq<char>)
    requires
        is_blank(w),
    ensures
        skip_end(u + w + v, u.len() as int) == w.len() + skip_end(u + v, u.len() as int),
        u + w + v == u + (w + v),
{
    assert(u + w + v =~= u + (w + v));
    lemma_skip_shift(u, w + v, 0, false);
    lemma_skip_over_blank(w, v, 0, false);
    lemma_skip_shift(w, v, 0, false);
    lemma_skip_shift(u, v, 0, false);
}

/// Whitespace and comment lines put where a recipe begins do not change the
/// recipe read there; its end moves by their length.
pub proof fn law_blank_before_recipe(u: Seq<char>, w: Seq<char>, v: Seq<char>)
    requires
        is_blank(w),
    ensures
        recipe_at(u + w + v, u.len() as int) == shifted(recipe_at(u + v, u.len() as int), w.len() as int),
{
    lemma_blank_insert(u, w, v);
    let t = u + w + v;
    let d = u.len() + w.len();
    let j = skip_end(u + v, u.len() as int);
    lemma_skip_from_bounds(u + v, u.len() as int, false);
    lemma_skip_fixed(u + v, u.len() as int, false);
    lemma_skip_from_bounds(t, u.len() as int, false);
    lemma_skip_fixed(t, u.len() as int, false);
    assert((u + w) + v =~= t);
    lemma_recipe_shift(u + w, v, j - u.len());
    lemma_recipe_shift(u, v, j - u.len());
    assert(recipe_at(t, u.len() as int) == recipe_at(t, d + j - u.len()));
    assert(recipe_at(u + v, u.len() as int) == recipe_at(u + v, j));
}

proof fn lemma_instruction_after_skip(s: Seq<char>, i: int)
    requires
        0 <= i <= s.len(),
    ensures
        instruction_at(s, i) == instruction_at(s, skip_end(s, i)),
{
    let j = skip_end(s, i);
    lemma_skip_from_bounds(s, i, false);
    lemma_skip_fixed(s, i, false);
    assert(token_at(s, i, '?') == token_at(s, j, '?'));
    assert(token_at(s, i, '+') == token_at(s, j, '+'));
    assert(text_at(s, i, false) == text_at(s, j, false));
}

/// Whitespace and comment lines put where a step begins (after a `>`) do not
/// change the step read there; its end moves by their length.
pub proof fn law_blank_before_instruction(u: Seq<char>, w: Seq<char>, v: Seq<char>)
    requires
        is_blank(w),
    ensures
        instruction_at(u + w + v, u.len() as int) == shifted(
            instruction_at(u + v, u.len() as int),
            w.len() as int,
        ),
{
    lemma_blank_insert(u, w, v);
    let t = u + w + v;
    let j = skip_end(u + v, u.len() as int);
    lemma_skip_from_bounds(u + v, u.len() as int, false);
    lemma_skip_from_bounds(t, u.len() as int, false);
    assert((u + w) + v =~= t);
    lemma_instruction_shift(u + w, v, j - u.len());
    lemma_instruction_shift(u, v, j - u.len());
    lemma_instruction_after_skip(t, u.len() as int);
    lemma_instruction_after_skip(u + v, u.len() as int);
}

/// Whitespace and comment lines put where an ingredient source begins (after a
/// `+`) do not change the ingredient read there; its end moves by their length.
pub proof fn law_blank_before_source(u: Seq<char>, w: Seq<char>, v: Seq<char>)
    requires
        is_blank(w),
    ensures
        source_at(u + w + v, u.len() as int) == shifted(source_at(u + v, u.len() as int), w.len() as int),
{
    lemma_blank_insert(u, w, v);
    let t = u + w + v;
    let d = u.len() + w.len();
    let j = skip_end(u + v, u.len() as int);
    lemma_skip_from_bounds(u + v, u.len() as int, false);
    lemma_skip_fixed(u + v, u.len() as int, false);
    lemma_skip_from_bounds(t, u.len() as int, false);
    lemma_skip_fixed(t, u.len() as int, false);
    assert((u + w) + v =~= t);
    lemma_source_shift(u + w, v, j - u.len());
    lemma_source_shift(u, v, j - u.len());
    assert(source_at(t, u.len() as int) == source_at(t, d + j - u.len()));
    assert(source_at(u + v, u.len() as int) == source_at(u + v, j));
}

} // verus!

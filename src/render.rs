use vstd::prelude::*;
use crate::ast::{instructions_view, lemma_recipe_view, Instruction, InstructionV, Recipe, RecipeV};
use vstd::string::StringExecFns;

verus! {

broadcast use vstd::std_specs::vec::group_vec_axioms;

/// The text of one step: a processing step in brackets, or an added
/// ingredient with its base and its own steps.
pub open spec fn render_instruction(x: InstructionV) -> Seq<char>
    decreases x, 0int,
{
    match x {
        InstructionV::Process(t) => "「"@ + t + "」"@,
        InstructionV::AddIngredients { recipe, optional } => (if optional {
            "お好みで　"@
        } else {
            Seq::empty()
        }) + "「"@ + recipe.base + "　を"@ + render_nested_steps(
            recipe.instructions,
            recipe.instructions.len() as int,
        ) + "加える」"@,
    }
}

/// The first `n` steps of an added ingredient, each as `　<step>　して`.
pub open spec fn render_nested_steps(xs: Seq<InstructionV>, n: int) -> Seq<char>
    decreases xs, n,
{
    if n <= 0 || n > xs.len() {
        Seq::empty()
    } else {
        render_nested_steps(xs, n - 1) + "　"@ + render_instruction(xs[n - 1]) + "　して"@
    }
}

/// The first `n` top-level steps, each on a line of its own as `<step>　をして`.
pub open spec fn render_lines(xs: Seq<InstructionV>, n: int) -> Seq<char>
    decreases n,
{
    if n <= 0 || n > xs.len() {
        Seq::empty()
    } else {
        render_lines(xs, n - 1) + "\n"@ + render_instruction(xs[n - 1]) + "　をして"@
    }
}

/// The whole text of a recipe: its base, a connective when it has steps, one
/// line per step, and the closing line.
pub open spec fn render_spec(r: RecipeV) -> Seq<char> {
    r.base + (if r.instructions.len() > 0 {
        "　に"@
    } else {
        Seq::empty()
    }) + render_lines(r.instructions, r.instructions.len() as int) + "\n完成！"@
}

fn write_instruction(x: &Instruction, out: &mut String)
    ensures
        final(out)@ == old(out)@ + render_instruction(x.view()),
    decreases x,
{
    match x {
        Instruction::Process(t) => {
            out.append("「");
            out.append(t.as_str());
            out.append("」");
        },
        Instruction::AddIngredients { recipe, optional } => {
            let ghost start = out@;
            if *optional {
                out.append("お好みで　");
            }
            out.append("「");
            out.append(recipe.base.as_str());
            out.append("　を");
            proof {
                lemma_recipe_view(recipe);
            }
            let ghost xs = instructions_view(&recipe.instructions);
            let ghost head = out@;
            assert(decreases_to!(*x => recipe.instructions));
            let mut i: usize = 0;
            while i < recipe.instructions.len()
                invariant
                    decreases_to!(*x => recipe.instructions),
                    i <= recipe.instructions.len(),
                    xs == instructions_view(&recipe.instructions),
                    out@ == head + render_nested_steps(xs, i as int),
                decreases recipe.instructions.len() - i,
            {
                out.append("　");
                assert(decreases_to!(recipe.instructions => recipe.instructions[i as int]));
                assert(decreases_to!(*x => recipe.instructions[i as int]));
                write_instruction(&recipe.instructions[i], out);
                out.append("　して");
                i += 1;
                assert(out@ =~= head + render_nested_steps(xs, i as int));
            }
            out.append("加える」");
            assert(out@ =~= start + render_instruction(x.view()));
        },
    }
}

/// The text that a recipe stands for.
pub fn render(r: &Recipe) -> (out: String)
    ensures
        out@ == render_spec(r.view()),
{
    proof {
        lemma_recipe_view(r);
    }
    let ghost xs = instructions_view(&r.instructions);
    let mut out = String::new();
    out.append(r.base.as_str());
    if r.instructions.len() > 0 {
        out.append("　に");
    }
    let ghost head = out@;
    let mut i: usize = 0;
    while i < r.instructions.len()
        invariant
            i <= r.instructions.len(),
            xs == instructions_view(&r.instructions),
            out@ == head + render_lines(xs, i as int),
        decreases r.instructions.len() - i,
    {
        out.append("\n");
        write_instruction(&r.instructions[i], &mut out);
        out.append("　をして");
        i += 1;
        assert(out@ =~= head + render_lines(xs, i as int));
    }
    out.append("\n完成！");
    assert(out@ =~= render_spec(r.view()));
    out
}

} // verus!

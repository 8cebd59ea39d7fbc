use vstd::prelude::*;

verus! {

broadcast use vstd::std_specs::vec::group_vec_axioms;

/// The mathematical value of a recipe: its base and its steps, in order.
pub ghost struct RecipeV {
    pub base: Seq<char>,
    pub instructions: Seq<InstructionV>,
}

/// The mathematical value of one step of a recipe.
pub ghost enum InstructionV {
    AddIngredients { recipe: RecipeV, optional: bool },
    Process(Seq<char>),
}

/// A parsed recipe: a base item and the ordered steps applied to it.
#[derive(Debug, PartialEq, Eq)]
pub struct Recipe {
    pub base: String,
    pub instructions: Vec<Instruction>,
}

/// One step of a recipe: an embedded sub-recipe added as an ingredient, or a
/// processing step kept as its trimmed text.
#[derive(Debug, PartialEq, Eq)]
pub enum Instruction {
    AddIngredients { recipe: Recipe, optional: bool },
    Process(String),
}

impl Recipe {
    pub open spec fn view(&self) -> RecipeV
        decreases self,
    {
        RecipeV {
            base: self.base@,
            instructions: Seq::new(
                self.instructions@.len(),
                |i: int|
                    if 0 <= i < self.instructions.len() {
                        self.instructions[i].view()
                    } else {
                        InstructionV::Process(Seq::empty())
                    },
            ),
        }
    }
}

impl Instruction {
    pub open spec fn view(&self) -> InstructionV
        decreases self,
    {
        match self {
            Instruction::AddIngredients { recipe, optional } => InstructionV::AddIngredients {
                recipe: recipe.view(),
                optional: *optional,
            },
            Instruction::Process(s) => InstructionV::Process(s@),
        }
    }
}

} // verus!

verus! {

/// The values of a list of steps.
pub open spec fn instructions_view(v: &Vec<Instruction>) -> Seq<InstructionV> {
    Seq::new(v@.len(), |i: int| v[i].view())
}

pub proof fn lemma_recipe_view(r: &Recipe)
    ensures
        r.view() == (RecipeV { base: r.base@, instructions: instructions_view(&r.instructions) }),
{
    assert(r.view().instructions =~= instructions_view(&r.instructions));
}

} // verus!

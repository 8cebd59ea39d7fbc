//! A small recipe language and its rendering as Japanese cooking text.
//!
//! A recipe is a base item followed by steps separated by `>`: a step is plain
//! processing text, or `+` (optionally `?+`) with an ingredient that is either a
//! bare name or a whole recipe in parentheses. `#` starts a comment that runs to
//! the end of the line. `parse` turns text into a `Recipe`, `render` turns a
//! `Recipe` into text, and `transpile` does both.

pub mod ast;
pub mod grammar;
pub mod laws;
pub mod parser;
pub mod render;
pub mod shift;
pub mod text;

pub use ast::{Instruction, Recipe};
pub use parser::{parse, ParseError, ParseErrorKind};
pub use render::render;

use vstd::prelude::*;
use grammar::parse_spec;
use parser::parse_error_spec;
use render::render_spec;

verus! {

/// Parses a recipe and renders it as text; a failed parse gives its error.
pub fn transpile(input: &str) -> (r: Result<String, ParseError>)
    ensures
        match r {
            Ok(t) => parse_spec(input@) is Some && t@ == render_spec(parse_spec(input@)->0),
            Err(e) => parse_spec(input@) is None && e == parse_error_spec(input@),
        },
{
    match parse(input) {
        Ok(x) => Ok(render(&x)),
        Err(e) => Err(e),
    }
}

} // verus!

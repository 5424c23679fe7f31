//! The code generators.
use vstd::prelude::*;
use crate::codegen::c::generate;
use crate::codegen::target::program_text;
use crate::parser::{program_view, Program};
use crate::text::append_chars;

pub mod arithmetic;
pub mod c;
pub mod target;

verus! {

/// Appends the C text of the program `ast` to `out`.
pub fn compile_ast(out: &mut String, ast: Program)
    ensures
        final(out)@ == old(out)@ + program_text(program_view(ast@)),
{
    let chars = generate(&ast);
    append_chars(out, &chars);
}

/// A generator of code for a program.
pub trait CodeGen {
    /// The code for the program.
    fn compile(&mut self) -> String;
}

} // verus!

//! The `Brainfuck` compiler: the lexer and the generator, one after the other.

use crate::generator::first_level;
use crate::generator::generated;
use crate::generator::Generator;
use crate::language::scan;
use crate::language::Brainfuck;
use crate::lexer::commands;
use crate::lexer::Lexer;
use vstd::prelude::*;

verus! {

/// The text in front of every generated program. It declares the cells and the pointer to the
/// current cell, and leaves the body of `main` open for the generated statements.
pub const PREFACE: &'static str =
    "#include <stdio.h>\n\nint main(void) {\n    char array[30000] = {0};\n    char *ptr = array;\n\n";

/// The `Brainfuck` compiler.
#[derive(Clone, Copy, Debug, Eq, PartialEq)]
pub struct Compiler;

impl Compiler {
    /// Initialize a `Brainfuck` compiler.
    pub fn new() -> (compiler: Compiler)
        ensures
            compiler == Compiler,
    {
        Compiler {  }
    }

    /// Compile the given `Brainfuck` `source` code.
    ///
    /// The result is what a new generator makes of the tokens of `source` below the preface:
    /// the preface, one line for each command symbol of the source, starting at indentation
    /// level 1, and the closing brace of `main`.
    pub fn compile(&self, source: &str) -> (output: String)
        ensures
            output@ == generated(PREFACE@, first_level(), commands(scan(source@))),
    {
        let program = Brainfuck::new(source);
        let tokens = program.tokenize();

        let mut generator = Generator::new();
        generator.generate(PREFACE, tokens.as_slice())
    }
}

} // verus!

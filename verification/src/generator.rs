//! A generator for creating `C` code from a list of tokens.

use crate::lexer::commands;
use crate::lexer::program_view;
use crate::lexer::Command;
use crate::lexer::Token;
use vstd::prelude::*;
use vstd::string::StringExecFns;

verus! {

/// The `C` statement that a command is rendered as, with the line break that ends it.
pub open spec fn statement(command: Command) -> Seq<char> {
    match command {
        Command::Add => "(*ptr)++;\n"@,
        Command::Sub => "(*ptr)--;\n"@,
        Command::Right => "ptr++;\n"@,
        Command::Left => "ptr--;\n"@,
        Command::Read => "*ptr = getchar();\n"@,
        Command::Write => "putchar(*ptr);\n"@,
        Command::BeginLoop => "while (*ptr) {\n"@,
        Command::EndLoop => "}\n"@,
    }
}

/// The white space in front of a line at the indentation level `level`: four spaces per level.
pub open spec fn indentation(level: nat) -> Seq<char> {
    Seq::new(4 * level, |i: int| ' ')
}

/// The level at which the line of `command` is written when the level before it is `level`.
/// The end of a loop is written one level further out than the line before it; at level 0
/// there is no further out, and it is written at level 0.
pub open spec fn line_level(level: u64, command: Command) -> u64 {
    if command == Command::EndLoop && level > 0 {
        (level - 1) as u64
    } else {
        level
    }
}

/// The level after the line of `command`, when the level before it is `level`. The begin of a
/// loop moves the lines after it one level further in, up to the largest level there is.
pub open spec fn next_level(level: u64, command: Command) -> u64 {
    if command == Command::BeginLoop && level < u64::MAX {
        (level + 1) as u64
    } else {
        line_level(level, command)
    }
}

/// The level after the first `n` commands of `program`, when the level before the first is
/// `start`.
pub open spec fn level_at(start: u64, program: Seq<Command>, n: int) -> u64
    decreases n,
{
    if n <= 0 || n > program.len() {
        start
    } else {
        next_level(level_at(start, program, n - 1), program[n - 1])
    }
}

/// The level at which the line of the command at index `i` of `program` is written.
pub open spec fn line_level_at(start: u64, program: Seq<Command>, i: int) -> u64 {
    line_level(level_at(start, program, i), program[i])
}

/// The line of the command at index `i` of `program`: its statement, indented.
pub open spec fn line_at(start: u64, program: Seq<Command>, i: int) -> Seq<char> {
    indentation(line_level_at(start, program, i) as nat) + statement(program[i])
}

/// The lines of the first `n` commands of `program`, one after the other.
pub open spec fn lines(start: u64, program: Seq<Command>, n: int) -> Seq<char>
    decreases n,
{
    if n <= 0 || n > program.len() {
        Seq::empty()
    } else {
        lines(start, program, n - 1) + line_at(start, program, n - 1)
    }
}

/// The text generated for `program` below `template`: the template, one line for each command,
/// and the line that closes the block left open by the template.
pub open spec fn generated(template: Seq<char>, start: u64, program: Seq<Command>) -> Seq<char> {
    template + lines(start, program, program.len() as int) + "}\n"@
}

/// The number of loops that the commands of `program` from index `from` up to, not including,
/// index `to` leave open: how many begin there, less how many end.
pub open spec fn opened(program: Seq<Command>, from: int, to: int) -> int
    decreases to - from,
{
    if to <= from {
        0
    } else if program[to - 1] == Command::BeginLoop {
        opened(program, from, to - 1) + 1
    } else if program[to - 1] == Command::EndLoop {
        opened(program, from, to - 1) - 1
    } else {
        opened(program, from, to - 1)
    }
}

/// The number of loops that are begun and not yet ended inside of the loop that begins at index
/// `i` of `program`, before index `k`.
pub open spec fn opened_inside(program: Seq<Command>, i: int, k: int) -> int {
    opened(program, i + 1, k)
}

/// Whether the command at index `j` of `program` ends the loop that the command at index `i`
/// begins: every loop begun between them is ended between them, and no other is.
pub open spec fn matching(program: Seq<Command>, i: int, j: int) -> bool {
    &&& 0 <= i < j < program.len()
    &&& program[i] == Command::BeginLoop
    &&& program[j] == Command::EndLoop
    &&& opened_inside(program, i, j) == 0
    &&& forall|k: int| i < k <= j ==> #[trigger] opened_inside(program, i, k) >= 0
}

/// The level at which every generation starts: inside of the block that the template leaves
/// open.
pub open spec fn first_level() -> u64 {
    1
}

/// No level is further in than the level at the start and one more for each command.
proof fn lemma_level_bound(start: u64, program: Seq<Command>, n: int)
    requires
        0 <= n <= program.len(),
    ensures
        level_at(start, program, n) <= start + n,
    decreases n,
{
    if n > 0 {
        lemma_level_bound(start, program, n - 1);
    }
}

/// No more loops are left open than commands were read.
proof fn lemma_opened_bound(program: Seq<Command>, from: int, to: int)
    requires
        from <= to,
    ensures
        opened(program, from, to) <= to - from,
    decreases to - from,
{
    if from < to {
        lemma_opened_bound(program, from, to - 1);
    }
}

/// Inside a loop the level follows the loops that were begun and ended since its begin.
proof fn lemma_level_inside_loop(program: Seq<Command>, i: int, j: int, k: int)
    requires
        matching(program, i, j),
        program.len() <= usize::MAX,
        i < k <= j,
    ensures
        level_at(first_level(), program, k) == level_at(first_level(), program, i) + 1
            + opened_inside(program, i, k),
    decreases k,
{
    assert(opened_inside(program, i, k) >= 0);
    lemma_level_bound(first_level(), program, i);
    lemma_opened_bound(program, i + 1, k);
    if k > i + 1 {
        lemma_level_inside_loop(program, i, j, k - 1);
        assert(opened_inside(program, i, k - 1) >= 0);
    }
}

/// The line after the begin of a loop is written exactly one level further in than the line of
/// the begin itself, unless it is the line that ends that loop.
pub proof fn lemma_line_after_loop_begin(program: Seq<Command>, i: int)
    requires
        program.len() <= usize::MAX,
        0 <= i,
        i + 1 < program.len(),
        program[i] == Command::BeginLoop,
        program[i + 1] != Command::EndLoop,
    ensures
        line_level_at(first_level(), program, i + 1) == line_level_at(first_level(), program, i)
            + 1,
        line_at(first_level(), program, i) == indentation(
            line_level_at(first_level(), program, i) as nat,
        ) + statement(Command::BeginLoop),
        line_at(first_level(), program, i + 1) == indentation(
            (line_level_at(first_level(), program, i) + 1) as nat,
        ) + statement(program[i + 1]),
{
    lemma_level_bound(first_level(), program, i);
}

/// The line that ends a loop is written at the level of the line that begins it, every line
/// between the two is written further in, and the lines after the loop go on at the level
/// before it.
pub proof fn lemma_matching_loop_end(program: Seq<Command>, i: int, j: int)
    requires
        program.len() <= usize::MAX,
        matching(program, i, j),
    ensures
        line_level_at(first_level(), program, j) == line_level_at(first_level(), program, i),
        line_at(first_level(), program, j) == indentation(
            line_level_at(first_level(), program, i) as nat,
        ) + statement(Command::EndLoop),
        forall|k: int|
            i < k < j ==> #[trigger] line_level_at(first_level(), program, k) > line_level_at(
                first_level(),
                program,
                i,
            ),
        level_at(first_level(), program, j + 1) == level_at(first_level(), program, i),
{
    lemma_level_inside_loop(program, i, j, j);
    assert forall|k: int| i < k < j implies #[trigger] line_level_at(first_level(), program, k)
        > line_level_at(first_level(), program, i) by {
        lemma_level_inside_loop(program, i, j, k);
        lemma_level_inside_loop(program, i, j, k + 1);
        assert(opened_inside(program, i, k) >= 0);
        assert(opened_inside(program, i, k + 1) >= 0);
    }
}

/// The generated text ends with a closing brace and one line break, whatever the program, and
/// for the empty program it is the template followed by just these.
pub proof fn lemma_generated_ends_closed(template: Seq<char>, start: u64, program: Seq<Command>)
    ensures
        generated(template, start, program).len() >= template.len() + 2,
        generated(template, start, program).subrange(
            generated(template, start, program).len() - 2,
            generated(template, start, program).len() as int,
        ) == seq!['}', '\n'],
        program.len() == 0 ==> generated(template, start, program) == template + seq!['}', '\n'],
{
    reveal_strlit("}\n");
    let text = generated(template, start, program);
    assert("}\n"@ =~= seq!['}', '\n']);
    assert(text.subrange(text.len() - 2, text.len() as int) =~= seq!['}', '\n']);
    if program.len() == 0 {
        assert(text =~= template + seq!['}', '\n']);
    }
}

/// A template, a level and a program have one generated text: two texts that both are
/// generated from them are equal.
pub proof fn lemma_generated_deterministic(
    template: Seq<char>,
    start: u64,
    program: Seq<Command>,
    first: Seq<char>,
    second: Seq<char>,
)
    requires
        first == generated(template, start, program),
        second == generated(template, start, program),
    ensures
        first == second,
{
}

/// A generator for creating `C` code from a list of tokens.
#[derive(Clone, Copy, Debug, Eq, PartialEq)]
pub struct Generator {
    /// The current level of indentation.
    pub indentation_level: u64,
}

impl Default for Generator {
    /// A generator at indentation level 0.
    fn default() -> (generator: Generator)
        ensures
            generator.indentation_level == 0,
    {
        Generator { indentation_level: 0 }
    }
}

impl Generator {
    /// Initialize a new generator. It starts at indentation level 1: inside of the block that
    /// the template leaves open.
    pub fn new() -> (generator: Generator)
        ensures
            generator.indentation_level == 1,
    {
        Generator { indentation_level: 1 }
    }

    /// Generate the `C` code from the given list of `tokens`, using the specified `template`.
    ///
    /// The result is the template, then one line for each token in the order of the list, then
    /// a closing brace on a line of its own. Every generation starts at level 1, whatever level
    /// the generator was left at, so the text depends on the template and the tokens alone. The
    /// generator is left at the level after the last token.
    pub fn generate(&mut self, template: &str, tokens: &[Token]) -> (output: String)
        ensures
            output@ == generated(template@, first_level(), commands(program_view(tokens@))),
            final(self).indentation_level == level_at(
                first_level(),
                commands(program_view(tokens@)),
                tokens@.len() as int,
            ),
            tokens@.len() == 0 ==> output@ == template@ + seq!['}', '\n'],
            output@.len() >= template@.len() + 2,
            output@.subrange(output@.len() - 2, output@.len() as int) == seq!['}', '\n'],
    {
        let mut output = template.to_owned();
        self.indentation_level = 1;
        let ghost start = first_level();
        let ghost program = commands(program_view(tokens@));

        for i in 0..tokens.len()
            invariant
                program == commands(program_view(tokens@)),
                self.indentation_level == level_at(start, program, i as int),
                output@ == template@ + lines(start, program, i as int),
        {
            assert(program[i as int] == tokens@[i as int].spec_command());
            match tokens[i] {
                Token::Add(_, _) => {
                    // Increment the value at the current cell.
                    output.append(self.indent("(*ptr)++;\n").as_str());
                },
                Token::Sub(_, _) => {
                    // Decrement the value at the current cell.
                    output.append(self.indent("(*ptr)--;\n").as_str());
                },
                Token::Right(_, _) => {
                    // Go to the right neighbor of the current cell.
                    output.append(self.indent("ptr++;\n").as_str());
                },
                Token::Left(_, _) => {
                    // Go to the left neighbor of the current cell.
                    output.append(self.indent("ptr--;\n").as_str());
                },
                Token::Read(_, _) => {
                    // Read a single character into the current cell.
                    output.append(self.indent("*ptr = getchar();\n").as_str());
                },
                Token::Write(_, _) => {
                    // Print the character of the current cell.
                    output.append(self.indent("putchar(*ptr);\n").as_str());
                },
                Token::BeginLoop(_, _) => {
                    // Begin a loop at the current cell.
                    output.append(self.indent("while (*ptr) {\n").as_str());
                    if self.indentation_level < u64::MAX {
                        self.indentation_level = self.indentation_level + 1;
                    }
                },
                Token::EndLoop(_, _) => {
                    // Close the current loop.
                    if self.indentation_level > 0 {
                        self.indentation_level = self.indentation_level - 1;
                    }
                    output.append(self.indent("}\n").as_str());
                },
            }
            assert(output@ =~= template@ + lines(start, program, i + 1));
        }

        // Add a closing bracket and a newline to the end of the output.
        output.append("}\n");
        proof {
            assert(output@ =~= generated(template@, start, program));
            lemma_generated_ends_closed(template@, start, program);
        }
        output
    }

    /// Indent the given `line` respective to the current indentation level.
    pub fn indent(&self, line: &str) -> (indented: String)
        ensures
            indented@ == indentation(self.indentation_level as nat) + line@,
    {
        let mut indentation = String::new();
        for level in 0..self.indentation_level
            invariant
                indentation@ == self::indentation(level as nat),
        {
            proof {
                reveal_strlit("    ");
                assert(self::indentation(level as nat) + "    "@ =~= self::indentation(
                    (level + 1) as nat,
                ));
            }
            indentation.append("    ");
        }

        indentation.append(line);
        indentation
    }
}

} // verus!

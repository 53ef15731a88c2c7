//! Tokens, and the trait of the lexers that produce them.

use vstd::prelude::*;

verus! {

/// The eight commands that a token can stand for.
#[derive(Clone, Copy, Debug, PartialEq, Eq, Structural)]
pub enum Command {
    /// Increment the current cell.
    Add,
    /// Decrement the current cell.
    Sub,
    /// Move the pointer to the right neighbor of the current cell.
    Right,
    /// Move the pointer to the left neighbor of the current cell.
    Left,
    /// Read a single character into the current cell.
    Read,
    /// Print the content of the current cell.
    Write,
    /// Begin a loop at the current cell.
    BeginLoop,
    /// End the current loop.
    EndLoop,
}

/// Additional information on each token.
#[derive(Clone, Copy, Debug, Eq, Ord, PartialEq, PartialOrd)]
pub struct MetaData {
    /// The line number in which the token occurs, counted from 1.
    pub lineno: usize,
    /// The position within the line at which the token starts, counted from 1.
    pub position: usize,
}

/// The tokens representing the commands understood by the translator. Each holds the lexeme it
/// was read from and the place where that lexeme stood.
#[derive(Clone, Debug, PartialEq)]
pub enum Token {
    /// Increment the current cell.
    Add(String, MetaData),
    /// Decrement the current cell.
    Sub(String, MetaData),
    /// Move the pointer to the next right neighbor of the current cell.
    Right(String, MetaData),
    /// Move the pointer to the next left neighbor of the current cell.
    Left(String, MetaData),
    /// Read a single character into the current cell.
    Read(String, MetaData),
    /// Print the content of the current cell.
    Write(String, MetaData),
    /// Begin a loop at the current cell.
    BeginLoop(String, MetaData),
    /// End the current loop.
    EndLoop(String, MetaData),
}

/// What a token is, as a mathematical value: its command, the characters of its lexeme, and its
/// line and position.
pub struct TokenView {
    /// The command that the token stands for.
    pub command: Command,
    /// The characters that the token was read from.
    pub lexeme: Seq<char>,
    /// The line number in which the token occurs, counted from 1.
    pub lineno: nat,
    /// The position within the line at which the token starts, counted from 1.
    pub position: nat,
}

impl Token {
    /// The command that this token stands for.
    pub open spec fn spec_command(&self) -> Command {
        match *self {
            Token::Add(_, _) => Command::Add,
            Token::Sub(_, _) => Command::Sub,
            Token::Right(_, _) => Command::Right,
            Token::Left(_, _) => Command::Left,
            Token::Read(_, _) => Command::Read,
            Token::Write(_, _) => Command::Write,
            Token::BeginLoop(_, _) => Command::BeginLoop,
            Token::EndLoop(_, _) => Command::EndLoop,
        }
    }

    /// The characters of the lexeme that this token was read from.
    pub open spec fn spec_lexeme(&self) -> Seq<char> {
        match *self {
            Token::Add(s, _) => s@,
            Token::Sub(s, _) => s@,
            Token::Right(s, _) => s@,
            Token::Left(s, _) => s@,
            Token::Read(s, _) => s@,
            Token::Write(s, _) => s@,
            Token::BeginLoop(s, _) => s@,
            Token::EndLoop(s, _) => s@,
        }
    }

    /// The place where this token's lexeme stood.
    pub open spec fn spec_meta(&self) -> MetaData {
        match *self {
            Token::Add(_, m) => m,
            Token::Sub(_, m) => m,
            Token::Right(_, m) => m,
            Token::Left(_, m) => m,
            Token::Read(_, m) => m,
            Token::Write(_, m) => m,
            Token::BeginLoop(_, m) => m,
            Token::EndLoop(_, m) => m,
        }
    }

    /// The command that this token stands for.
    #[verifier::when_used_as_spec(spec_command)]
    pub fn command(&self) -> (command: Command)
        ensures
            command == self.spec_command(),
    {
        match self {
            Token::Add(_, _) => Command::Add,
            Token::Sub(_, _) => Command::Sub,
            Token::Right(_, _) => Command::Right,
            Token::Left(_, _) => Command::Left,
            Token::Read(_, _) => Command::Read,
            Token::Write(_, _) => Command::Write,
            Token::BeginLoop(_, _) => Command::BeginLoop,
            Token::EndLoop(_, _) => Command::EndLoop,
        }
    }
}

impl View for Token {
    type V = TokenView;

    open spec fn view(&self) -> TokenView {
        TokenView {
            command: self.spec_command(),
            lexeme: self.spec_lexeme(),
            lineno: self.spec_meta().lineno as nat,
            position: self.spec_meta().position as nat,
        }
    }
}

/// The mathematical values of a list of tokens, in the list's order.
pub open spec fn program_view(tokens: Seq<Token>) -> Seq<TokenView> {
    Seq::new(tokens.len(), |i: int| tokens[i]@)
}

/// The commands of a list of token values, in the list's order.
pub open spec fn commands(program: Seq<TokenView>) -> Seq<Command> {
    Seq::new(program.len(), |i: int| program[i].command)
}

/// Convert a language's lexemes into tokens.
pub trait Lexer {
    /// The token values that the source held by this lexer stands for.
    spec fn program(&self) -> Seq<TokenView>;

    /// Convert the source held by this lexer into a list of tokens.
    fn tokenize(&self) -> (tokens: Vec<Token>)
        ensures
            program_view(tokens@) == self.program(),
    ;
}

} // verus!

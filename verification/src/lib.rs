//! A translator from `Brainfuck` source text to `C`.
//!
//! A source text is scanned into a list of tokens, one for each of the eight command symbols, and
//! the list is rendered as the body of a `C` function, one statement to a line, indented by the
//! nesting of the loops.

mod cli;
mod compiler;
mod error;
mod generator;
pub mod language;
mod lexer;
mod quit;

pub use cli::choose_output;
pub use cli::default_output;
pub use cli::get_arguments;
pub use cli::stem_of;
pub use cli::FALLBACK_OUTPUT;
pub use cli::OUTPUT_SUFFIX;
pub use compiler::Compiler;
pub use compiler::PREFACE;
pub use error::io_description;
pub use error::Error;
pub use generator::first_level;
pub use generator::generated;
pub use generator::lemma_generated_deterministic;
pub use generator::lemma_generated_ends_closed;
pub use generator::lemma_line_after_loop_begin;
pub use generator::lemma_matching_loop_end;
pub use generator::matching;
pub use generator::opened;
pub use generator::opened_inside;
pub use generator::indentation;
pub use generator::level_at;
pub use generator::line_at;
pub use generator::line_level;
pub use generator::line_level_at;
pub use generator::lines;
pub use generator::next_level;
pub use generator::statement;
pub use generator::Generator;
pub use lexer::commands;
pub use lexer::program_view;
pub use lexer::Command;
pub use lexer::Lexer;
pub use lexer::MetaData;
pub use lexer::Token;
pub use lexer::TokenView;
pub use quit::fail_from_error;
pub use quit::ExitCode;

//! The languages understood by the translator.

mod brainfuck;

pub use self::brainfuck::breaks_in;
pub use self::brainfuck::column_at;
pub use self::brainfuck::command_of;
pub use self::brainfuck::lemma_scan_concat;
pub use self::brainfuck::lemma_scan_deterministic;
pub use self::brainfuck::lemma_scan_len;
pub use self::brainfuck::lemma_scan_tokens;
pub use self::brainfuck::lemma_scan_without_symbols;
pub use self::brainfuck::length_of_last_line;
pub use self::brainfuck::line_at;
pub use self::brainfuck::moved;
pub use self::brainfuck::moved_all;
pub use self::brainfuck::scan;
pub use self::brainfuck::scan_prefix;
pub use self::brainfuck::token_at;
pub use self::brainfuck::Brainfuck;

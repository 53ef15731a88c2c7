//! The `Brainfuck` programming language: its eight command symbols, and the lexer that finds
//! them in a source text.

use crate::lexer::commands;
use crate::lexer::Command;
use crate::lexer::Lexer;
use crate::lexer::MetaData;
use crate::lexer::Token;
use crate::lexer::TokenView;
use crate::lexer::program_view;
use vstd::prelude::*;

verus! {

/// The command that a character stands for, if it is one of the eight command symbols.
pub open spec fn command_of(c: char) -> Option<Command> {
    if c == '+' {
        Some(Command::Add)
    } else if c == '-' {
        Some(Command::Sub)
    } else if c == '>' {
        Some(Command::Right)
    } else if c == '<' {
        Some(Command::Left)
    } else if c == ',' {
        Some(Command::Read)
    } else if c == '.' {
        Some(Command::Write)
    } else if c == '[' {
        Some(Command::BeginLoop)
    } else if c == ']' {
        Some(Command::EndLoop)
    } else {
        None
    }
}

/// The number of the line that holds the character at index `i` of `text`: one more than the
/// number of line breaks before it.
pub open spec fn line_at(text: Seq<char>, i: int) -> nat
    decreases i,
{
    if i <= 0 || i > text.len() {
        1
    } else if text[i - 1] == '\n' {
        line_at(text, i - 1) + 1
    } else {
        line_at(text, i - 1)
    }
}

/// The position in its line of the character at index `i` of `text`: one more than the number
/// of characters between it and the line break before it, or the start of the text.
pub open spec fn column_at(text: Seq<char>, i: int) -> nat
    decreases i,
{
    if i <= 0 || i > text.len() {
        1
    } else if text[i - 1] == '\n' {
        1
    } else {
        column_at(text, i - 1) + 1
    }
}

/// The token that the command symbol at index `i` of `text` is read as.
pub open spec fn token_at(text: Seq<char>, i: int) -> TokenView
    recommends
        0 <= i < text.len(),
        command_of(text[i]) is Some,
{
    TokenView {
        command: command_of(text[i])->0,
        lexeme: seq![text[i]],
        lineno: line_at(text, i),
        position: column_at(text, i),
    }
}

/// The tokens of the first `n` characters of `text`: one for each command symbol among them,
/// in the order of the text.
pub open spec fn scan_prefix(text: Seq<char>, n: int) -> Seq<TokenView>
    decreases n,
{
    if n <= 0 || n > text.len() {
        Seq::empty()
    } else if command_of(text[n - 1]) is Some {
        scan_prefix(text, n - 1).push(token_at(text, n - 1))
    } else {
        scan_prefix(text, n - 1)
    }
}

/// The tokens of `text`: one for each command symbol in it, in the order of the text. Every
/// other character is passed over.
pub open spec fn scan(text: Seq<char>) -> Seq<TokenView> {
    scan_prefix(text, text.len() as int)
}

/// A text of `n` characters takes at least `n` bytes when encoded.
proof fn lemma_encoding_holds_each_char(text: Seq<char>)
    ensures
        text.len() <= vstd::utf8::encode_utf8(text).len(),
    decreases text.len(),
{
    if text.len() > 0 {
        lemma_encoding_holds_each_char(text.drop_first());
    }
}

/// The character at index `n` of a text stands no further down than on line `n + 1` and no
/// further right than at position `n + 1`, and at most `n` tokens stand before it.
proof fn lemma_place_bounds(text: Seq<char>, n: int)
    requires
        0 <= n <= text.len(),
    ensures
        line_at(text, n) <= n + 1,
        column_at(text, n) <= n + 1,
        scan_prefix(text, n).len() <= n,
    decreases n,
{
    if n > 0 {
        lemma_place_bounds(text, n - 1);
    }
}

/// A text without command symbols holds no token.
pub proof fn lemma_scan_without_symbols(text: Seq<char>)
    requires
        forall|i: int| 0 <= i < text.len() ==> command_of(#[trigger] text[i]) is None,
    ensures
        scan(text) == Seq::<TokenView>::empty(),
{
    lemma_scan_prefix_without_symbols(text, text.len() as int);
}

proof fn lemma_scan_prefix_without_symbols(text: Seq<char>, n: int)
    requires
        0 <= n <= text.len(),
        forall|i: int| 0 <= i < text.len() ==> command_of(#[trigger] text[i]) is None,
    ensures
        scan_prefix(text, n) == Seq::<TokenView>::empty(),
    decreases n,
{
    if n > 0 {
        lemma_scan_prefix_without_symbols(text, n - 1);
    }
}

/// A text holds at most as many tokens as characters.
pub proof fn lemma_scan_len(text: Seq<char>)
    ensures
        scan(text).len() <= text.len(),
{
    lemma_place_bounds(text, text.len() as int);
}

/// Each token of a text stands for the command symbol of one of its characters, has that
/// character as its lexeme, and carries a line and a position that are at least 1.
pub proof fn lemma_scan_tokens(text: Seq<char>, k: int)
    requires
        0 <= k < scan(text).len(),
    ensures
        exists|i: int|
            0 <= i < text.len() && command_of(text[i]) is Some && scan(text)[k] == #[trigger] token_at(
                text,
                i,
            ),
        scan(text)[k].lineno >= 1,
        scan(text)[k].position >= 1,
{
    lemma_scan_prefix_tokens(text, text.len() as int, k);
}

proof fn lemma_scan_prefix_tokens(text: Seq<char>, n: int, k: int)
    requires
        0 <= n <= text.len(),
        0 <= k < scan_prefix(text, n).len(),
    ensures
        exists|i: int|
            0 <= i < n && command_of(text[i]) is Some && scan_prefix(text, n)[k] == #[trigger] token_at(
                text,
                i,
            ),
        scan_prefix(text, n)[k].lineno >= 1,
        scan_prefix(text, n)[k].position >= 1,
    decreases n,
{
    if n > 0 {
        lemma_place_start(text, n - 1);
        if command_of(text[n - 1]) is Some && k == scan_prefix(text, n - 1).len() {
            assert(scan_prefix(text, n)[k] == token_at(text, n - 1));
        } else {
            lemma_scan_prefix_tokens(text, n - 1, k);
        }
    }
}

/// Lines and positions are counted from 1.
proof fn lemma_place_start(text: Seq<char>, n: int)
    ensures
        line_at(text, n) >= 1,
        column_at(text, n) >= 1,
    decreases n,
{
    if 0 < n <= text.len() {
        lemma_place_start(text, n - 1);
    }
}

/// What stands before index `n` of a text is scanned without regard to what follows it.
proof fn lemma_scan_prefix_of_concat(a: Seq<char>, b: Seq<char>, n: int)
    requires
        0 <= n <= a.len(),
    ensures
        scan_prefix(a + b, n) == scan_prefix(a, n),
        line_at(a + b, n) == line_at(a, n),
        column_at(a + b, n) == column_at(a, n),
    decreases n,
{
    if n > 0 {
        lemma_scan_prefix_of_concat(a, b, n - 1);
        assert((a + b)[n - 1] == a[n - 1]);
        if n < a.len() {
            assert((a + b)[n] == a[n]);
        }
    }
}

/// The token `token` of a text, as it stands when the text follows another that holds `lines`
/// line breaks and has `columns` characters after the last of them: it stands `lines` lines
/// further down, and, if it is on the first line of its own text, `columns` positions further
/// right.
pub open spec fn moved(token: TokenView, lines: nat, columns: nat) -> TokenView {
    TokenView {
        command: token.command,
        lexeme: token.lexeme,
        lineno: token.lineno + lines,
        position: if token.lineno == 1 {
            token.position + columns
        } else {
            token.position
        },
    }
}

/// The tokens of `program`, each moved by `lines` and `columns`.
pub open spec fn moved_all(program: Seq<TokenView>, lines: nat, columns: nat) -> Seq<TokenView> {
    Seq::new(program.len(), |k: int| moved(program[k], lines, columns))
}

/// The number of line breaks in `text`.
pub open spec fn breaks_in(text: Seq<char>) -> nat {
    (line_at(text, text.len() as int) - 1) as nat
}

/// The number of characters of `text` after its last line break.
pub open spec fn length_of_last_line(text: Seq<char>) -> nat {
    (column_at(text, text.len() as int) - 1) as nat
}

/// Where a character of the second of two joined texts stands.
proof fn lemma_place_in_concat(a: Seq<char>, b: Seq<char>, n: int)
    requires
        0 <= n <= b.len(),
    ensures
        line_at(b, n) >= 1,
        line_at(a + b, a.len() + n) == line_at(b, n) + breaks_in(a),
        column_at(a + b, a.len() + n) == if line_at(b, n) == 1 {
            column_at(b, n) + length_of_last_line(a)
        } else {
            column_at(b, n)
        },
    decreases n,
{
    lemma_place_start(a, a.len() as int);
    lemma_place_start(b, n);
    if n == 0 {
        lemma_scan_prefix_of_concat(a, b, a.len() as int);
    } else {
        lemma_place_in_concat(a, b, n - 1);
        assert((a + b)[a.len() + n - 1] == b[n - 1]);
    }
}

proof fn lemma_scan_prefix_in_concat(a: Seq<char>, b: Seq<char>, n: int)
    requires
        0 <= n <= b.len(),
    ensures
        scan_prefix(a + b, a.len() + n) == scan(a) + moved_all(
            scan_prefix(b, n),
            breaks_in(a),
            length_of_last_line(a),
        ),
    decreases n,
{
    let lines = breaks_in(a);
    let columns = length_of_last_line(a);
    if n == 0 {
        lemma_scan_prefix_of_concat(a, b, a.len() as int);
        assert(scan(a) + moved_all(scan_prefix(b, 0), lines, columns) =~= scan(a));
    } else {
        lemma_scan_prefix_in_concat(a, b, n - 1);
        assert((a + b)[a.len() + n - 1] == b[n - 1]);
        if command_of(b[n - 1]) is Some {
            lemma_place_in_concat(a, b, n - 1);
            let t = token_at(a + b, a.len() + n - 1);
            let u = token_at(b, n - 1);
            assert(t == moved(u, lines, columns));
            assert(moved_all(scan_prefix(b, n - 1).push(u), lines, columns) =~= moved_all(
                scan_prefix(b, n - 1),
                lines,
                columns,
            ).push(t));
            assert(scan_prefix(a + b, a.len() + n) =~= scan(a) + moved_all(
                scan_prefix(b, n),
                lines,
                columns,
            ));
        }
    }
}

/// Scanning carries nothing over from one text into the next. The tokens of two texts joined
/// are those of the first, followed by those of the second moved to where they stand after the
/// first; so the commands of the two texts joined are those of the first followed by those of
/// the second.
pub proof fn lemma_scan_concat(a: Seq<char>, b: Seq<char>)
    ensures
        scan(a + b) == scan(a) + moved_all(scan(b), breaks_in(a), length_of_last_line(a)),
        commands(scan(a + b)) == commands(scan(a)) + commands(scan(b)),
{
    lemma_scan_prefix_in_concat(a, b, b.len() as int);
    assert(commands(scan(a) + moved_all(scan(b), breaks_in(a), length_of_last_line(a)))
        =~= commands(scan(a)) + commands(scan(b)));
}

/// A text has one list of tokens: two lists that both are the tokens of one text are equal.
pub proof fn lemma_scan_deterministic(text: Seq<char>, first: Seq<TokenView>, second: Seq<TokenView>)
    requires
        first == scan(text),
        second == scan(text),
    ensures
        first == second,
{
}

/// The esoteric programming language `Brainfuck`, created in 1993 by Urban Müller.
#[derive(Clone, Debug, Eq, PartialEq)]
pub struct Brainfuck {
    /// The program source code.
    pub source: String,
}

impl View for Brainfuck {
    type V = Seq<char>;

    open spec fn view(&self) -> Seq<char> {
        self.source@
    }
}

impl Brainfuck {
    /// Initialize a new `Brainfuck` program from the given `source`.
    pub fn new(source: &str) -> (program: Brainfuck)
        ensures
            program@ == source@,
    {
        Brainfuck { source: source.to_owned() }
    }

    /// The token for the character `c` found at the place `meta`, if `c` is a command symbol.
    fn read_symbol(c: char, meta: MetaData) -> (token: Option<Token>)
        ensures
            token is Some <==> command_of(c) is Some,
            token is Some ==> token->0@ == (TokenView {
                command: command_of(c)->0,
                lexeme: seq![c],
                lineno: meta.lineno as nat,
                position: meta.position as nat,
            }),
    {
        proof {
            reveal_strlit("+");
            reveal_strlit("-");
            reveal_strlit(">");
            reveal_strlit("<");
            reveal_strlit(",");
            reveal_strlit(".");
            reveal_strlit("[");
            reveal_strlit("]");
        }
        let token = match c {
            '+' => Some(Token::Add("+".to_owned(), meta)),
            '-' => Some(Token::Sub("-".to_owned(), meta)),
            '>' => Some(Token::Right(">".to_owned(), meta)),
            '<' => Some(Token::Left("<".to_owned(), meta)),
            ',' => Some(Token::Read(",".to_owned(), meta)),
            '.' => Some(Token::Write(".".to_owned(), meta)),
            '[' => Some(Token::BeginLoop("[".to_owned(), meta)),
            ']' => Some(Token::EndLoop("]".to_owned(), meta)),
            _ => None,
        };
        proof {
            if token is Some {
                assert(token->0.spec_lexeme() =~= seq![c]);
            }
        }
        token
    }
}

impl Lexer for Brainfuck {
    open spec fn program(&self) -> Seq<TokenView> {
        scan(self@)
    }

    fn tokenize(&self) -> (tokens: Vec<Token>)
        ensures
            tokens.len() <= self@.len(),
            (forall|i: int| 0 <= i < self@.len() ==> command_of(#[trigger] self@[i]) is None)
                ==> tokens.len() == 0,
    {
        let source: &str = self.source.as_str();
        let ghost text = source@;
        let encoded: usize = source.as_bytes().len();
        proof {
            lemma_encoding_holds_each_char(text);
        }
        let mut tokens: Vec<Token> = Vec::new();
        // Lines and positions are counted from 1; these two count from 0, so that neither can
        // pass the length of the text.
        let mut breaks: usize = 0;
        let mut column: usize = 0;
        for c in it: source.chars()
            invariant
                it.seq() == text,
                text.len() <= usize::MAX,
                breaks + 1 == line_at(text, it.index() as int),
                column + 1 == column_at(text, it.index() as int),
                program_view(tokens@) =~= scan_prefix(text, it.index() as int),
        {
            let ghost i = it.index() as int;
            proof {
                lemma_place_bounds(text, i);
                lemma_place_bounds(text, i + 1);
            }
            let meta = MetaData { lineno: breaks + 1, position: column + 1 };
            match Brainfuck::read_symbol(c, meta) {
                Some(token) => {
                    tokens.push(token);
                },
                None => {},
            }
            if c == '\n' {
                breaks = breaks + 1;
                column = 0;
            } else {
                column = column + 1;
            }
        }
        proof {
            lemma_scan_len(text);
            if forall|i: int| 0 <= i < text.len() ==> command_of(#[trigger] text[i]) is None {
                lemma_scan_without_symbols(text);
            }
        }
        tokens
    }
}

} // verus!

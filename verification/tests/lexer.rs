use rustfuck::language::Brainfuck;
use rustfuck::Command;
use rustfuck::Lexer;
use rustfuck::MetaData;
use rustfuck::Token;

fn commands_of(source: &str) -> Vec<Command> {
    Brainfuck::new(source).tokenize().iter().map(|token| token.command()).collect()
}

#[test]
fn brainfuck_test_new() {
    let source: &str = "+-><,.[]";
    let bf = Brainfuck::new(source);

    assert_eq!(bf, Brainfuck { source: String::from(source) });
}

#[test]
fn test_tokenize_add() {
    let source: &str = "+";
    let bf = Brainfuck::new(source);

    let tokens: Vec<Token> = bf.tokenize();
    let expected: Vec<Token> = vec![
        Token::Add(String::from("+"), MetaData { lineno: 1, position: 1 }),
    ];
    assert_eq!(tokens, expected);
}

#[test]
fn test_tokenize_sub() {
    let source: &str = "-";
    let bf = Brainfuck::new(source);

    let tokens: Vec<Token> = bf.tokenize();
    let expected: Vec<Token> = vec![
        Token::Sub(String::from("-"), MetaData { lineno: 1, position: 1 }),
    ];
    assert_eq!(tokens, expected);
}

#[test]
fn test_tokenize_right() {
    let source: &str = ">";
    let bf = Brainfuck::new(source);

    let tokens: Vec<Token> = bf.tokenize();
    let expected: Vec<Token> = vec![
        Token::Right(String::from(">"), MetaData { lineno: 1, position: 1 }),
    ];
    assert_eq!(tokens, expected);
}

#[test]
fn test_tokenize_left() {
    let source: &str = "<";
    let bf = Brainfuck::new(source);

    let tokens: Vec<Token> = bf.tokenize();
    let expected: Vec<Token> = vec![
        Token::Left(String::from("<"), MetaData { lineno: 1, position: 1 }),
    ];
    assert_eq!(tokens, expected);
}

#[test]
fn test_tokenize_read() {
    let source: &str = ",";
    let bf = Brainfuck::new(source);

    let tokens: Vec<Token> = bf.tokenize();
    let expected: Vec<Token> = vec![
        Token::Read(String::from(","), MetaData { lineno: 1, position: 1 }),
    ];
    assert_eq!(tokens, expected);
}

#[test]
fn test_tokenize_write() {
    let source: &str = ".";
    let bf = Brainfuck::new(source);

    let tokens: Vec<Token> = bf.tokenize();
    let expected: Vec<Token> = vec![
        Token::Write(String::from("."), MetaData { lineno: 1, position: 1 }),
    ];
    assert_eq!(tokens, expected);
}

#[test]
fn test_tokenize_loop_begin() {
    let source: &str = "[";
    let bf = Brainfuck::new(source);

    let tokens: Vec<Token> = bf.tokenize();
    let expected: Vec<Token> = vec![
        Token::BeginLoop(String::from("["), MetaData { lineno: 1, position: 1 }),
    ];
    assert_eq!(tokens, expected);
}

#[test]
fn test_tokenize_loop_end() {
    let source: &str = "]";
    let bf = Brainfuck::new(source);

    let tokens: Vec<Token> = bf.tokenize();
    let expected: Vec<Token> = vec![
        Token::EndLoop(String::from("]"), MetaData { lineno: 1, position: 1 }),
    ];
    assert_eq!(tokens, expected);
}

#[test]
fn test_tokenize() {
    let source: &str = "+-><No Brainfuck\nsymbols,.[]";
    let bf = Brainfuck::new(source);

    let tokens: Vec<Token> = bf.tokenize();
    let expected: Vec<Token> = vec![
        Token::Add(String::from("+"), MetaData { lineno: 1, position: 1 }),
        Token::Sub(String::from("-"), MetaData { lineno: 1, position: 2 }),
        Token::Right(String::from(">"), MetaData { lineno: 1, position: 3 }),
        Token::Left(String::from("<"), MetaData { lineno: 1, position: 4 }),
        Token::Read(String::from(","), MetaData { lineno: 2, position: 8 }),
        Token::Write(String::from("."), MetaData { lineno: 2, position: 9 }),
        Token::BeginLoop(String::from("["), MetaData { lineno: 2, position: 10 }),
        Token::EndLoop(String::from("]"), MetaData { lineno: 2, position: 11 }),
    ];
    assert_eq!(tokens, expected);
}

#[test]
fn tokenize_empty_source() {
    assert_eq!(Brainfuck::new("").tokenize(), Vec::<Token>::new());
}

#[test]
fn tokenize_source_without_symbols() {
    let source = "No symbols at all: just a comment\n\twith (round) {curly} brackets\r\n";
    assert_eq!(Brainfuck::new(source).tokenize(), Vec::<Token>::new());
}

#[test]
fn tokenize_keeps_the_order_of_the_source() {
    assert_eq!(
        commands_of("+><,-[.]"),
        vec![
            Command::Add,
            Command::Right,
            Command::Left,
            Command::Read,
            Command::Sub,
            Command::BeginLoop,
            Command::Write,
            Command::EndLoop,
        ]
    );
}

#[test]
fn tokenize_loop() {
    assert_eq!(
        commands_of("[,-]"),
        vec![Command::BeginLoop, Command::Read, Command::Sub, Command::EndLoop]
    );
}

#[test]
fn tokenize_finds_at_most_one_token_per_character() {
    for source in ["", "+", "abc", "+-+-", "a+b-c", "\n\n[\n]\n", "++\u{e9}++"] {
        let tokens = Brainfuck::new(source).tokenize();
        assert!(tokens.len() <= source.chars().count());
    }
}

#[test]
fn tokenize_counts_lines_from_1() {
    let tokens = Brainfuck::new("\n\n+\n\n\n-").tokenize();
    let expected: Vec<Token> = vec![
        Token::Add(String::from("+"), MetaData { lineno: 3, position: 1 }),
        Token::Sub(String::from("-"), MetaData { lineno: 6, position: 1 }),
    ];
    assert_eq!(tokens, expected);
}

#[test]
fn tokenize_counts_skipped_characters_in_positions() {
    let tokens = Brainfuck::new("ab + cd -\n  >").tokenize();
    let expected: Vec<Token> = vec![
        Token::Add(String::from("+"), MetaData { lineno: 1, position: 4 }),
        Token::Sub(String::from("-"), MetaData { lineno: 1, position: 9 }),
        Token::Right(String::from(">"), MetaData { lineno: 2, position: 3 }),
    ];
    assert_eq!(tokens, expected);
}

#[test]
fn tokenize_counts_characters_not_bytes() {
    let tokens = Brainfuck::new("\u{e9}\u{20ac}\u{1f600}+").tokenize();
    let expected: Vec<Token> = vec![
        Token::Add(String::from("+"), MetaData { lineno: 1, position: 4 }),
    ];
    assert_eq!(tokens, expected);
}

#[test]
fn tokenize_lines_ended_by_carriage_return_and_line_feed() {
    let tokens = Brainfuck::new("+\r\n-\r\n.").tokenize();
    let expected: Vec<Token> = vec![
        Token::Add(String::from("+"), MetaData { lineno: 1, position: 1 }),
        Token::Sub(String::from("-"), MetaData { lineno: 2, position: 1 }),
        Token::Write(String::from("."), MetaData { lineno: 3, position: 1 }),
    ];
    assert_eq!(tokens, expected);
}

#[test]
fn tokenize_carriage_return_alone_ends_no_line() {
    let tokens = Brainfuck::new("+\r-").tokenize();
    let expected: Vec<Token> = vec![
        Token::Add(String::from("+"), MetaData { lineno: 1, position: 1 }),
        Token::Sub(String::from("-"), MetaData { lineno: 1, position: 3 }),
    ];
    assert_eq!(tokens, expected);
}

#[test]
fn tokenize_joined_texts_gives_joined_commands() {
    let pairs = [("", ""), ("+", ""), ("", "-"), ("+[", "-]"), ("a+\nb", "c-\n"), ("x", "+")];
    for (first, second) in pairs {
        let joined = format!("{}{}", first, second);
        let mut expected = commands_of(first);
        expected.extend(commands_of(second));
        assert_eq!(commands_of(&joined), expected);
    }
}

#[test]
fn tokenize_joined_texts_keeps_the_tokens_of_the_first() {
    let first = "a+\n[b";
    let joined = format!("{}{}", first, "-]\n.");
    let of_first = Brainfuck::new(first).tokenize();
    let of_joined = Brainfuck::new(&joined).tokenize();
    assert_eq!(of_joined.len(), 5);
    assert_eq!(&of_joined[..of_first.len()], &of_first[..]);
    assert_eq!(of_joined[2], Token::Sub(String::from("-"), MetaData { lineno: 2, position: 3 }));
}

#[test]
fn tokenize_twice_gives_the_same_tokens() {
    let bf = Brainfuck::new("+[>,.<-]\nagain\n[-]");
    assert_eq!(bf.tokenize(), bf.tokenize());
    assert_eq!(bf.tokenize(), Brainfuck::new("+[>,.<-]\nagain\n[-]").tokenize());
}

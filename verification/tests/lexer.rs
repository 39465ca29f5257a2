use thermite::lexer::{is_alphabetic, is_numeric, tokenize, Lexer, Token};

#[test]
fn lexer_advance() {
    let mut lexer = Lexer::new("test 14 @\ntesting\ntest\ttesting");
    let mut output = String::new();

    loop {
        match lexer.advance() {
            Some(c) => {
                output.push(c);
            }
            None => break,
        }
    }
    assert_eq!(output, "test 14 @\ntesting\ntest\ttesting");
    assert_eq!(lexer.line, 3);
    assert_eq!(lexer.column, 16);
}

#[test]
fn advance_while_numeric() {
    let mut lexer = Lexer::new("4532test s34");
    let start = lexer.pos;
    lexer.advance_while(is_numeric);
    assert_eq!(&lexer.input[start..lexer.pos], "4532");
}

#[test]
fn advance_while_alphabetic() {
    let mut lexer = Lexer::new("test3 3test");
    let start = lexer.pos;
    lexer.advance_while(is_alphabetic);
    assert_eq!(&lexer.input[start..lexer.pos], "test");
}

#[test]
fn peek() {
    let mut lexer = Lexer::new("The quick brown fox jumps over the 64 lazy dog");
    let mut output = String::new();

    loop {
        match lexer.peek() {
            Some(c) => {
                output.push(c);
            }
            None => break,
        }
        lexer.advance();
    }
    assert_eq!(output, "The quick brown fox jumps over the 64 lazy dog");
}

#[test]
fn lexer_iter() {
    let mut lexer = Lexer::new("The 42\n 42");
    let mut output = vec![];

    loop {
        match lexer.next() {
            Some(t) => {
                output.push(t);
            }
            None => break,
        }
    }
    assert_eq!(
        output,
        vec![
            Token::Identifier("The".to_string()),
            Token::Value(42),
            Token::Value(42)
        ]
    );
}

#[test]
fn tokenize_program_line() {
    let tokens = tokenize("str 10 ra");
    assert_eq!(
        tokens,
        vec![
            Token::Identifier("str".to_string()),
            Token::Value(10),
            Token::Identifier("ra".to_string())
        ]
    );
}

#[test]
fn tokenize_label_keeps_colon() {
    let tokens = tokenize("main:");
    assert_eq!(tokens, vec![Token::Identifier("main:".to_string())]);
}

#[test]
fn tokenize_stops_at_unknown_character() {
    let tokens = tokenize("add @ sub");
    assert_eq!(tokens, vec![Token::Identifier("add".to_string())]);
}

#[test]
fn tokenize_largest_value() {
    let tokens = tokenize("2147483647");
    assert_eq!(tokens, vec![Token::Value(2147483647)]);
}

#[test]
fn tokenize_empty_input() {
    let tokens = tokenize("");
    assert_eq!(tokens, Vec::<Token>::new());
}

#[test]
fn lexable_accepts_the_largest_value() {
    assert!(thermite::lexer::text_lexable("str 2147483647 ra"));
}

#[test]
fn lexable_rejects_an_overflowing_value() {
    assert!(!thermite::lexer::text_lexable("str 2147483648 ra"));
}

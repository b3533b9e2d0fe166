use remc::error::{CompileErrorOf, ErrorKindOf};
use remc::lexer::{tokenize, LexStepOf, Lexer};
use remc::token::TokenOf;

fn tok(s: &str) -> TokenOf<String> {
    TokenOf::Ident(s.to_string())
}

#[test]
fn punctuation_and_words() {
    let steps = tokenize(b"fn main() { let x = 1; }".to_vec());
    let expected = vec![
        LexStepOf::Token(TokenOf::Fn, 1),
        LexStepOf::Token(tok("main"), 1),
        LexStepOf::Token(TokenOf::OpenParen, 1),
        LexStepOf::Token(TokenOf::CloseParen, 1),
        LexStepOf::Token(TokenOf::OpenCurly, 1),
        LexStepOf::Token(TokenOf::Let, 1),
        LexStepOf::Token(tok("x"), 1),
        LexStepOf::Token(TokenOf::Equals, 1),
        LexStepOf::Token(TokenOf::Int(1), 1),
        LexStepOf::Token(TokenOf::Semicolon, 1),
        LexStepOf::Token(TokenOf::CloseCurly, 1),
        LexStepOf::Token(TokenOf::EOF, 1),
    ];
    assert_eq!(steps, expected);
}

#[test]
fn all_punctuation() {
    let steps = tokenize(b"(){}=;+-*/:,".to_vec());
    let kinds: Vec<TokenOf<String>> = steps
        .into_iter()
        .map(|s| match s {
            LexStepOf::Token(t, _) => t,
            LexStepOf::Failure(_) => panic!("unexpected failure"),
        })
        .collect();
    assert_eq!(
        kinds,
        vec![
            TokenOf::OpenParen,
            TokenOf::CloseParen,
            TokenOf::OpenCurly,
            TokenOf::CloseCurly,
            TokenOf::Equals,
            TokenOf::Semicolon,
            TokenOf::Plus,
            TokenOf::Minus,
            TokenOf::Asterisk,
            TokenOf::Slash,
            TokenOf::Colon,
            TokenOf::Comma,
            TokenOf::EOF,
        ]
    );
}

#[test]
fn keywords_need_whole_words() {
    let steps = tokenize(b"return returned fn_a lets let".to_vec());
    assert_eq!(
        steps,
        vec![
            LexStepOf::Token(TokenOf::Return, 1),
            LexStepOf::Token(tok("returned"), 1),
            LexStepOf::Token(tok("fn_a"), 1),
            LexStepOf::Token(tok("lets"), 1),
            LexStepOf::Token(TokenOf::Let, 1),
            LexStepOf::Token(TokenOf::EOF, 1),
        ]
    );
}

#[test]
fn identifiers_take_digits_and_underscores() {
    let steps = tokenize(b"a1_b2 9x".to_vec());
    assert_eq!(
        steps,
        vec![
            LexStepOf::Token(tok("a1_b2"), 1),
            LexStepOf::Token(TokenOf::Int(9), 1),
            LexStepOf::Token(tok("x"), 1),
            LexStepOf::Token(TokenOf::EOF, 1),
        ]
    );
}

#[test]
fn lines_count_line_feeds() {
    let steps = tokenize(b"a\n\n b\r\n\tc\x0c\n".to_vec());
    assert_eq!(
        steps,
        vec![
            LexStepOf::Token(tok("a"), 1),
            LexStepOf::Token(tok("b"), 3),
            LexStepOf::Token(tok("c"), 4),
            LexStepOf::Token(TokenOf::EOF, 5),
        ]
    );
}

#[test]
fn largest_literal_and_leading_zeros() {
    let steps = tokenize(b"2147483647 007".to_vec());
    assert_eq!(
        steps,
        vec![
            LexStepOf::Token(TokenOf::Int(2147483647), 1),
            LexStepOf::Token(TokenOf::Int(7), 1),
            LexStepOf::Token(TokenOf::EOF, 1),
        ]
    );
}

#[test]
fn literal_overflow_is_an_error() {
    let steps = tokenize(b"x\n2147483648 y".to_vec());
    assert_eq!(
        steps,
        vec![
            LexStepOf::Token(tok("x"), 1),
            LexStepOf::Failure(CompileErrorOf { line: 2, kind: ErrorKindOf::IntegerOverflow }),
        ]
    );
}

#[test]
fn unknown_character_is_an_error() {
    let steps = tokenize(b"let x = 1 $ 2;".to_vec());
    assert_eq!(steps.len(), 5);
    assert_eq!(
        steps[4],
        LexStepOf::Failure(CompileErrorOf { line: 1, kind: ErrorKindOf::UnknownCharacter(b'$') })
    );
}

#[test]
fn empty_source_is_just_eof() {
    assert_eq!(tokenize(Vec::new()), vec![LexStepOf::Token(TokenOf::EOF, 1)]);
    assert_eq!(tokenize(b"  \n ".to_vec()), vec![LexStepOf::Token(TokenOf::EOF, 2)]);
}

#[test]
fn lexer_steps_and_stays_at_eof() {
    let mut lexer = Lexer::new(b"x".to_vec());
    assert_eq!(lexer.lexe().unwrap(), tok("x"));
    assert_eq!(lexer.lexe().unwrap(), TokenOf::EOF);
    assert_eq!(lexer.lexe().unwrap(), TokenOf::EOF);
    assert_eq!(lexer.line(), 1);
}

#[test]
fn non_ascii_byte_is_unknown() {
    let steps = tokenize("é".as_bytes().to_vec());
    assert_eq!(
        steps,
        vec![LexStepOf::Failure(CompileErrorOf { line: 1, kind: ErrorKindOf::UnknownCharacter(0xC3) })]
    );
}

#[test]
fn streams_end_with_eof_or_failure() {
    let sources: [&[u8]; 5] = [b"", b"fn f() { }", b"a $ b", b"1 99999999999 2", b"let\nx\n=\n3;\n"];
    for src in sources.iter() {
        let steps = tokenize(src.to_vec());
        assert!(!steps.is_empty());
        for step in &steps[..steps.len() - 1] {
            assert!(matches!(step, LexStepOf::Token(t, _) if *t != TokenOf::EOF));
        }
        assert!(matches!(
            steps.last().unwrap(),
            LexStepOf::Token(TokenOf::EOF, _) | LexStepOf::Failure(_)
        ));
    }
}

#[test]
fn lexer_line_follows_line_feeds() {
    let mut lexer = Lexer::new(b"a\n\nb\n c".to_vec());
    assert_eq!(lexer.line(), 1);
    assert_eq!(lexer.lexe().unwrap(), tok("a"));
    assert_eq!(lexer.line(), 1);
    assert_eq!(lexer.lexe().unwrap(), tok("b"));
    assert_eq!(lexer.line(), 3);
    assert_eq!(lexer.lexe().unwrap(), tok("c"));
    assert_eq!(lexer.line(), 4);
    assert_eq!(lexer.lexe().unwrap(), TokenOf::EOF);
    assert_eq!(lexer.line(), 4);
}

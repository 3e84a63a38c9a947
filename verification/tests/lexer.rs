use khviz::eel::lexer::{Lexer, Token};

fn lex(src: &str) -> Vec<Token> {
    Lexer::new(src).tokenize()
}

fn num(s: &str) -> Token {
    Token::Number(s.to_string())
}

fn id(s: &str) -> Token {
    Token::Ident(s.to_string())
}

#[test]
fn empty_source_is_just_eof() {
    assert_eq!(lex(""), vec![Token::Eof]);
    assert_eq!(lex("   \n\t "), vec![Token::Eof]);
}

#[test]
fn assignment_with_number_and_call() {
    assert_eq!(
        lex("x = 1.5e3 + foo(2)"),
        vec![
            id("x"),
            Token::Eq,
            num("1.5e3"),
            Token::Plus,
            id("foo"),
            Token::LParen,
            num("2"),
            Token::RParen,
            Token::Eof
        ]
    );
}

#[test]
fn compound_operators() {
    assert_eq!(
        lex("a+=1;b-=2;c*=3;d/=4;e%=5;f^=6"),
        vec![
            id("a"), Token::PlusEq, num("1"), Token::Semicolon,
            id("b"), Token::MinusEq, num("2"), Token::Semicolon,
            id("c"), Token::StarEq, num("3"), Token::Semicolon,
            id("d"), Token::SlashEq, num("4"), Token::Semicolon,
            id("e"), Token::PercentEq, num("5"), Token::Semicolon,
            id("f"), Token::CaretEq, num("6"), Token::Eof
        ]
    );
}

#[test]
fn single_char_operators() {
    assert_eq!(
        lex("< > & | ! , ; ( ) = + - * / % ^"),
        vec![
            Token::Lt, Token::Gt, Token::Amp, Token::Pipe, Token::Bang, Token::Comma,
            Token::Semicolon, Token::LParen, Token::RParen, Token::Eq, Token::Plus,
            Token::Minus, Token::Star, Token::Slash, Token::Percent, Token::Caret, Token::Eof
        ]
    );
}

#[test]
fn comments_are_skipped() {
    assert_eq!(
        lex("a // line comment\n/* block\n comment */ b"),
        vec![id("a"), id("b"), Token::Eof]
    );
}

#[test]
fn unterminated_block_comment_runs_to_the_end() {
    assert_eq!(lex("/*ab"), vec![Token::Eof]);
    assert_eq!(lex("/* abc"), vec![Token::Eof]);
    assert_eq!(lex("x /*"), vec![id("x"), Token::Eof]);
    assert_eq!(lex("x /* y */ z /* w"), vec![id("x"), id("z"), Token::Eof]);
}

#[test]
fn numbers_keep_their_text() {
    assert_eq!(lex(".5"), vec![num(".5"), Token::Eof]);
    assert_eq!(lex("1.2.3"), vec![num("1.2.3"), Token::Eof]);
    assert_eq!(lex("2E-7x"), vec![num("2E-7"), id("x"), Token::Eof]);
    assert_eq!(lex("3e"), vec![num("3e"), Token::Eof]);
    assert_eq!(lex("."), vec![Token::Eof]);
}

#[test]
fn identifiers_take_letters_digits_and_underscores() {
    assert_eq!(lex("_q1 wave_r x2y"), vec![id("_q1"), id("wave_r"), id("x2y"), Token::Eof]);
    assert_eq!(lex("größe"), vec![id("größe"), Token::Eof]);
}

#[test]
fn unknown_chars_are_dropped() {
    assert_eq!(lex("a @ b # $"), vec![id("a"), id("b"), Token::Eof]);
}

#[test]
fn number_then_ident_without_space() {
    assert_eq!(lex("3x"), vec![num("3"), id("x"), Token::Eof]);
}

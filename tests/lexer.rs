use starlang::lexer::{Error, ErrorKind, Location, Matcher, Tok};

type Item = Result<(Location, Tok, Location), Error>;

fn tok(t: Tok, line: usize, start_line_offset: usize, start_file_offset: usize, bytes: usize) -> Item {
    Ok((
        Location::new(line, start_line_offset, start_file_offset),
        t,
        Location::new(line, start_line_offset + bytes, start_file_offset + bytes),
    ))
}

fn err(kind: ErrorKind, line: usize, line_offset: usize, file_offset: usize) -> Error {
    Error { location: Location::new(line, line_offset, file_offset), kind }
}

fn lex_all(text: &str) -> Vec<Item> {
    let mut m = Matcher::new(text);
    let mut out = Vec::new();
    while let Some(item) = m.next() {
        out.push(item);
    }
    out
}

fn first_error(text: &str) -> Option<Error> {
    lex_all(text).into_iter().find_map(|x| x.err())
}

#[test]
fn terminates_after_error() {
    let mut matcher = Matcher::new("if $ {");
    let mut output = Vec::new();
    for _ in 0..3 {
        if let Some(item) = matcher.next() {
            output.push(item);
        }
    }
    assert_eq!(output, vec![tok(Tok::If, 1, 0, 0, 2), Err(err(ErrorKind::IllegalChar('$'), 1, 3, 3))])
}

#[test]
fn empty_string_ends_immediately() {
    assert_eq!(lex_all(""), vec![]);
}

#[test]
fn extract_two_pluses_on_different_lines() {
    assert_eq!(lex_all("+\n+\n"), vec![tok(Tok::Plus, 1, 0, 0, 1), tok(Tok::Plus, 2, 0, 2, 1)]);
}

#[test]
fn extract_two_character_operators() {
    assert_eq!(
        lex_all("== <= << >= >> != = < >"),
        vec![
            tok(Tok::DoubleEqual, 1, 0, 0, 2),
            tok(Tok::LessThanOrEqual, 1, 3, 3, 2),
            tok(Tok::LeftShift, 1, 6, 6, 2),
            tok(Tok::MoreThanOrEqual, 1, 9, 9, 2),
            tok(Tok::RightShift, 1, 12, 12, 2),
            tok(Tok::NotEqual, 1, 15, 15, 2),
            tok(Tok::Equal, 1, 18, 18, 1),
            tok(Tok::LessThan, 1, 20, 20, 1),
            tok(Tok::MoreThan, 1, 22, 22, 1),
        ]
    );
}

#[test]
fn extract_integer_2() {
    assert_eq!(
        lex_all("923 - 03"),
        vec![
            tok(Tok::Integer(923), 1, 0, 0, 3),
            tok(Tok::Minus, 1, 4, 4, 1),
            tok(Tok::Integer(3), 1, 6, 6, 2),
        ]
    );
}

#[test]
fn extract_char_str_and_identifier() {
    assert_eq!(
        lex_all("'s' \"hello\" bob"),
        vec![
            tok(Tok::Char('s'), 1, 0, 0, 3),
            tok(Tok::String("hello".to_string()), 1, 4, 4, 7),
            tok(Tok::Identifier("bob".to_string()), 1, 12, 12, 3),
        ]
    );
}

#[test]
fn extract_keywords() {
    assert_eq!(
        lex_all("function return let if while and not or"),
        vec![
            tok(Tok::Function, 1, 0, 0, 8),
            tok(Tok::Return, 1, 9, 9, 6),
            tok(Tok::Let, 1, 16, 16, 3),
            tok(Tok::If, 1, 20, 20, 2),
            tok(Tok::While, 1, 23, 23, 5),
            tok(Tok::And, 1, 29, 29, 3),
            tok(Tok::Not, 1, 33, 33, 3),
            tok(Tok::Or, 1, 37, 37, 2),
        ]
    );
}

#[test]
fn ignore_comments() {
    assert_eq!(
        lex_all("ident # A comment\nand\n"),
        vec![tok(Tok::Identifier("ident".to_string()), 1, 0, 0, 5), tok(Tok::And, 2, 0, 18, 3)]
    );
}

#[test]
fn accept_char_return() {
    assert_eq!(lex_all("if\r\nwhile\r\n"), vec![tok(Tok::If, 1, 0, 0, 2), tok(Tok::While, 2, 0, 4, 5)]);
}

#[test]
fn lexical_errors() {
    assert_eq!(first_error("id$"), Some(err(ErrorKind::IllegalChar('$'), 1, 2, 2)));
    assert_eq!(first_error("if ! a"), Some(err(ErrorKind::LonelyExclamation, 1, 3, 3)));
    assert_eq!(first_error("if '"), Some(err(ErrorKind::EofInCharLiteral, 1, 3, 3)));
    assert_eq!(first_error("if 'a"), Some(err(ErrorKind::EofInCharLiteral, 1, 3, 3)));
    assert_eq!(first_error("if 'as' {"), Some(err(ErrorKind::BadCharLiteral, 1, 3, 3)));
    assert_eq!(first_error("let a = \"seffsd"), Some(err(ErrorKind::EofInString, 1, 8, 8)));
    assert_eq!(first_error("if\r{"), Some(err(ErrorKind::MisPlacedCharacterReturn, 1, 2, 2)));
    assert_eq!(first_error("99999999999"), Some(err(ErrorKind::NumberTooLarge, 1, 0, 0)));
}

#[test]
fn brackets_and_single_characters() {
    let kinds: Vec<Tok> = lex_all("(){}[];,&|^+-~*%/").into_iter().map(|x| x.unwrap().1).collect();
    assert_eq!(
        kinds,
        vec![
            Tok::LeftParen,
            Tok::RightParen,
            Tok::LeftBrace,
            Tok::RightBrace,
            Tok::RightBracket,
            Tok::LeftBracket,
            Tok::SemiColon,
            Tok::Comma,
            Tok::Ampersand,
            Tok::Pipe,
            Tok::Caret,
            Tok::Plus,
            Tok::Minus,
            Tok::Tilde,
            Tok::Asterisk,
            Tok::Percent,
            Tok::ForwardSlash,
        ]
    );
}

use buglang::lexer::Lexer;
use buglang::token::Token;

fn lex_all(text: &str) -> Vec<Result<Token, String>> {
    let input = text.chars().collect::<Vec<char>>();
    let mut l = Lexer::new(&input);
    let mut out = Vec::new();
    loop {
        let t = l.try_next_token();
        let done = t == Ok(Token::Eof) || t.is_err();
        out.push(t);
        if done {
            break;
        }
    }
    out
}

#[test]
fn missing_unquote_to_balance_string_literal() {
    // "Hello world!
    let input = "\"Hello world!";
    let input = input.chars().collect::<Vec<char>>();
    let mut l = Lexer::new(&input);
    assert_eq!(Err("Unbalanced '\"'".to_string()), l.next_token());
}

#[test]
fn test_next_token() {
    let input = "f main -> \"Hello, world!\" .write;";
    let input = input.chars().collect::<Vec<char>>();
    let mut l = Lexer::new(&input);
    assert_eq!(Ok(Token::FunctionDeclarator), l.next_token());
    assert_eq!(Ok(Token::Identifier("main".to_string())), l.next_token());
    assert_eq!(Ok(Token::Arrow), l.next_token());
    assert_eq!(
        Ok(Token::String("Hello, world!".to_string())),
        l.next_token()
    );
    assert_eq!(Ok(Token::Dot), l.next_token());
    assert_eq!(Ok(Token::Identifier("write".to_string())), l.next_token());
    assert_eq!(Ok(Token::Semicolon), l.next_token());
    assert_eq!(Ok(Token::Eof), l.next_token());
}

#[test]
fn empty_input_is_eof() {
    assert_eq!(lex_all(""), vec![Ok(Token::Eof)]);
    assert_eq!(lex_all("  \n\t "), vec![Ok(Token::Eof)]);
}

#[test]
fn keywords_and_identifiers() {
    assert_eq!(
        lex_all("int str if else return bool true false my_var2"),
        vec![
            Ok(Token::TypeInteger),
            Ok(Token::TypeString),
            Ok(Token::If),
            Ok(Token::Else),
            Ok(Token::Return),
            Ok(Token::TypeBoolean),
            Ok(Token::True),
            Ok(Token::False),
            Ok(Token::Identifier("my_var2".to_string())),
            Ok(Token::Eof),
        ]
    );
}

#[test]
fn punctuation_and_minus_versus_arrow() {
    assert_eq!(
        lex_all("+(),;>=- ->-"),
        vec![
            Ok(Token::Plus),
            Ok(Token::Lparen),
            Ok(Token::Rparen),
            Ok(Token::Comma),
            Ok(Token::Semicolon),
            Ok(Token::GratherThan),
            Ok(Token::Equal),
            Ok(Token::Minus),
            Ok(Token::Arrow),
            Ok(Token::Minus),
            Ok(Token::Eof),
        ]
    );
}

#[test]
fn integer_literals() {
    assert_eq!(lex_all("42 7"), vec![Ok(Token::Int(42)), Ok(Token::Int(7)), Ok(Token::Eof)]);
    assert_eq!(lex_all("2147483647"), vec![Ok(Token::Int(2147483647)), Ok(Token::Eof)]);
}

#[test]
fn integer_literal_too_large_is_an_error() {
    assert_eq!(lex_all("2147483648"), vec![Err("Invalid integer literal".to_string())]);
}

#[test]
fn integer_literal_with_dot_is_an_error() {
    assert_eq!(lex_all("1.5"), vec![Err("Invalid integer literal".to_string())]);
}

#[test]
fn illegal_character() {
    assert_eq!(lex_all("@"), vec![Ok(Token::Illegal('@')), Ok(Token::Eof)]);
}

#[test]
fn empty_string_literal() {
    assert_eq!(lex_all("\"\""), vec![Ok(Token::String(String::new())), Ok(Token::Eof)]);
}

#[test]
fn token_text() {
    assert_eq!(Token::Int(-42).text(), "-42");
    assert_eq!(Token::Illegal('@').text(), "[Illegal Token] @");
    assert_eq!(Token::FunctionDeclarator.text(), "[Function declaration] f");
    assert_eq!(Token::Identifier("main".to_string()).text(), "main");
    assert_eq!(Token::Arrow.text(), "->");
    assert_eq!(Token::Eof.text(), "EOF");
}

#[test]
fn next_token_reads_numbers_in_range() {
    let input = "x > 10".chars().collect::<Vec<char>>();
    let mut l = Lexer::new(&input);
    assert_eq!(Ok(Token::Identifier("x".to_string())), l.next_token());
    assert_eq!(Ok(Token::GratherThan), l.next_token());
    assert_eq!(Ok(Token::Int(10)), l.next_token());
    assert_eq!(Ok(Token::Eof), l.next_token());
    assert_eq!(Ok(Token::Eof), l.next_token());
}

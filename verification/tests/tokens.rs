use lox_ast::characters::is_ascii_char;
use lox_ast::characters::is_ascii_digit;
use lox_ast::lexical::classify_word;
use lox_ast::object::Object;
use lox_ast::text::chars_of;
use lox_ast::text::spells;
use lox_ast::text::string_of;
use lox_ast::token::Token;
use lox_ast::token_type::TokenType;

#[test]
fn test_main() {}

#[test]
fn token_holds_what_it_was_made_of() {
    let token = Token::new(
        TokenType::String,
        "\"hi\"".to_string(),
        Some(Object::String("hi".to_string())),
        7,
    );
    assert_eq!(token.token_type(), TokenType::String);
    assert_eq!(token.lexeme(), "\"hi\"");
    assert_eq!(token.literal(), Some(&Object::String("hi".to_string())));
    assert_eq!(token.line(), 7);
}

#[test]
fn token_without_value() {
    let token = Token::new(TokenType::Semicolon, ";".to_string(), None, 1);
    assert_eq!(token.token_type(), TokenType::Semicolon);
    assert_eq!(token.lexeme(), ";");
    assert_eq!(token.literal(), None);
    assert_eq!(token.line(), 1);
}

#[test]
fn tokens_compare_by_what_they_hold() {
    let token = Token::new(TokenType::Number, "1".to_string(), Some(Object::Number("1".to_string())), 1);
    assert_eq!(token, token.clone());
    assert_ne!(token, Token::new(TokenType::Number, "1".to_string(), Some(Object::Number("1".to_string())), 2));
    assert_ne!(token, Token::new(TokenType::Number, "1".to_string(), Some(Object::String("1".to_string())), 1));
    assert_ne!(token, Token::new(TokenType::Number, "1".to_string(), None, 1));
    assert_ne!(Object::Boolean(true), Object::Nil);
}

#[test]
fn ascii_digits() {
    assert!(is_ascii_digit('0'));
    assert!(is_ascii_digit('5'));
    assert!(is_ascii_digit('9'));
    assert!(!is_ascii_digit('/'));
    assert!(!is_ascii_digit(':'));
    assert!(!is_ascii_digit('a'));
    assert!(!is_ascii_digit('\0'));
    assert!(!is_ascii_digit('\u{663}'));
}

#[test]
fn ascii_range() {
    assert!(is_ascii_char('\0'));
    assert!(is_ascii_char('a'));
    assert!(is_ascii_char('\u{7f}'));
    assert!(!is_ascii_char('\u{80}'));
    assert!(!is_ascii_char('\u{20ac}'));
}

#[test]
fn characters_of_a_text() {
    assert_eq!(chars_of(""), Vec::<char>::new());
    assert_eq!(chars_of("a\u{e9}\u{20ac}b"), vec!['a', '\u{e9}', '\u{20ac}', 'b']);
}

#[test]
fn text_of_a_piece() {
    let chars = vec!['p', 'r', 'i', 'n', 't', '\u{e9}'];
    assert_eq!(string_of(&chars, 0, 6), "print\u{e9}");
    assert_eq!(string_of(&chars, 1, 4), "rin");
    assert_eq!(string_of(&chars, 3, 3), "");
    assert_eq!(string_of(&chars, 5, 6), "\u{e9}");
}

#[test]
fn piece_that_spells_a_word() {
    let chars = vec!['p', 'r', 'i', 'n', 't', 's'];
    assert!(spells(&chars, 0, 5, "print"));
    assert!(!spells(&chars, 0, 6, "print"));
    assert!(!spells(&chars, 0, 4, "print"));
    assert!(!spells(&chars, 1, 6, "print"));
    assert!(spells(&chars, 2, 4, "in"));
    assert!(!spells(&chars, 2, 4, "if"));
    assert!(spells(&chars, 3, 3, ""));
}

#[test]
fn word_that_is_reserved() {
    let chars = chars_of("classroom while");
    assert_eq!(classify_word(&chars, 0, 5), TokenType::Class);
    assert_eq!(classify_word(&chars, 0, 9), TokenType::Identifier);
    assert_eq!(classify_word(&chars, 0, 4), TokenType::Identifier);
    assert_eq!(classify_word(&chars, 10, 15), TokenType::While);
    assert_eq!(classify_word(&chars, 9, 15), TokenType::Identifier);
    assert_eq!(classify_word(&chars, 3, 3), TokenType::Identifier);
}

#[test]
fn every_reserved_word() {
    let words = [
        ("and", TokenType::And),
        ("class", TokenType::Class),
        ("else", TokenType::Else),
        ("false", TokenType::False),
        ("for", TokenType::For),
        ("fun", TokenType::Fun),
        ("if", TokenType::If),
        ("nil", TokenType::Nil),
        ("or", TokenType::Or),
        ("print", TokenType::Print),
        ("return", TokenType::Return),
        ("super", TokenType::Super),
        ("this", TokenType::This),
        ("true", TokenType::True),
        ("var", TokenType::Var),
        ("while", TokenType::While),
    ];
    for (word, token_type) in words {
        let chars = chars_of(word);
        assert_eq!(classify_word(&chars, 0, chars.len()), token_type);
        assert_eq!(classify_word(&chars, 0, chars.len() - 1), TokenType::Identifier);
    }
}

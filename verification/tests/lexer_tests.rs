use stellar::lang::{Diagnostic, Lexer, Token, TokenType};

fn lex(source: &str) -> (Vec<Token>, Vec<Diagnostic>) {
    let mut lexer = Lexer::new(source.to_string());
    lexer.scan_tokens();
    lexer.into_parts()
}

fn kinds(source: &str) -> Vec<TokenType> {
    lex(source).0.iter().map(|t| t.ty).collect()
}

fn lexemes(source: &str) -> Vec<String> {
    lex(source).0.iter().map(|t| t.lexeme.clone()).collect()
}

fn messages(source: &str) -> Vec<(u32, String)> {
    lex(source).1.iter().map(|d| (d.line, d.message.clone())).collect()
}

#[test]
fn empty_source_is_one_eof() {
    let (tokens, diagnostics) = lex("");
    assert_eq!(tokens, vec![Token::new(TokenType::Eof, String::new(), 1)]);
    assert!(diagnostics.is_empty());
}

#[test]
fn every_scan_ends_with_one_eof() {
    for source in ["", "1", "let x = 1;", "@", "\"open", "/* open", "a\nb\n"] {
        let tokens = lex(source).0;
        assert_eq!(tokens.last().unwrap().ty, TokenType::Eof, "{source:?}");
        let eofs = tokens.iter().filter(|t| t.ty == TokenType::Eof).count();
        assert_eq!(eofs, 1, "{source:?}");
    }
}

#[test]
fn keywords_are_not_identifiers() {
    let table = [
        ("if", TokenType::If),
        ("else", TokenType::Else),
        ("and", TokenType::And),
        ("or", TokenType::Or),
        ("let", TokenType::Let),
        ("struct", TokenType::Struct),
        ("self", TokenType::SSelf),
        ("while", TokenType::While),
        ("for", TokenType::For),
        ("return", TokenType::Return),
        ("fun", TokenType::Fun),
        ("true", TokenType::True),
        ("false", TokenType::False),
        ("null", TokenType::Null),
    ];
    for (word, kind) in table {
        assert_eq!(kinds(word), vec![kind, TokenType::Eof], "{word}");
        assert_eq!(lexemes(word)[0], word);
    }
}

#[test]
fn a_keyword_with_more_letters_is_an_identifier() {
    assert_eq!(kinds("ifx"), vec![TokenType::Ident, TokenType::Eof]);
    assert_eq!(kinds("lets"), vec![TokenType::Ident, TokenType::Eof]);
    assert_eq!(kinds("_if"), vec![TokenType::Ident, TokenType::Eof]);
    assert_eq!(kinds("If"), vec![TokenType::Ident, TokenType::Eof]);
    assert_eq!(kinds("print"), vec![TokenType::Ident, TokenType::Eof]);
    assert_eq!(lexemes("ifx")[0], "ifx");
}

#[test]
fn punctuation() {
    assert_eq!(
        kinds("{}(),.:;"),
        vec![
            TokenType::LCurly,
            TokenType::RCurly,
            TokenType::LParen,
            TokenType::RParen,
            TokenType::Comma,
            TokenType::Dot,
            TokenType::Colon,
            TokenType::Semicolon,
            TokenType::Eof,
        ]
    );
}

#[test]
fn compound_operators_take_the_longest_match() {
    assert_eq!(
        kinds("== != <= >= += -= *= /="),
        vec![
            TokenType::EqEq,
            TokenType::Ne,
            TokenType::Lte,
            TokenType::Gte,
            TokenType::PlusEq,
            TokenType::MinusEq,
            TokenType::StarEq,
            TokenType::SlashEq,
            TokenType::Eof,
        ]
    );
    assert_eq!(
        kinds("= ! < > + - * /"),
        vec![
            TokenType::Eq,
            TokenType::Bang,
            TokenType::Lt,
            TokenType::Gt,
            TokenType::Plus,
            TokenType::Minus,
            TokenType::Star,
            TokenType::Slash,
            TokenType::Eof,
        ]
    );
    assert_eq!(kinds("==="), vec![TokenType::EqEq, TokenType::Eq, TokenType::Eof]);
    assert_eq!(lexemes("a<=b"), vec!["a", "<=", "b", ""]);
}

#[test]
fn an_operator_at_the_end_of_input() {
    assert_eq!(kinds("+"), vec![TokenType::Plus, TokenType::Eof]);
    assert_eq!(kinds("="), vec![TokenType::Eq, TokenType::Eof]);
    assert_eq!(kinds("/"), vec![TokenType::Slash, TokenType::Eof]);
}

#[test]
fn numbers() {
    assert_eq!(lexemes("12 3.25 7."), vec!["12", "3.25", "7.", ""]);
    assert_eq!(
        kinds("12 3.25"),
        vec![TokenType::Number, TokenType::Number, TokenType::Eof]
    );
    assert_eq!(kinds("-1"), vec![TokenType::Minus, TokenType::Number, TokenType::Eof]);
    assert_eq!(lexemes("1.2.3"), vec!["1.2", ".", "3", ""]);
    assert_eq!(
        kinds("1e5"),
        vec![TokenType::Number, TokenType::Ident, TokenType::Eof]
    );
}

#[test]
fn strings_lose_their_quotes() {
    let (tokens, diagnostics) = lex("\"hello world\" \"\"");
    assert!(diagnostics.is_empty());
    assert_eq!(tokens[0], Token::new(TokenType::String, "hello world".to_string(), 1));
    assert_eq!(tokens[1], Token::new(TokenType::String, String::new(), 1));
    assert_eq!(tokens.len(), 3);
}

#[test]
fn strings_may_hold_any_character() {
    let (tokens, diagnostics) = lex("\"héllo // not a comment 'x' \u{1F600}\"");
    assert!(diagnostics.is_empty());
    assert_eq!(tokens[0].lexeme, "héllo // not a comment 'x' \u{1F600}");
}

#[test]
fn unterminated_string() {
    assert_eq!(kinds("\"abc"), vec![TokenType::Eof]);
    assert_eq!(
        messages("\"abc"),
        vec![(1, "Unterminated string literal".to_string())]
    );
    assert_eq!(messages("\""), vec![(1, "Unterminated string literal".to_string())]);
}

#[test]
fn character_literals() {
    let (tokens, diagnostics) = lex("'a' '0' ' '");
    assert!(diagnostics.is_empty());
    assert_eq!(tokens[0], Token::new(TokenType::Char, "a".to_string(), 1));
    assert_eq!(tokens[1], Token::new(TokenType::Char, "0".to_string(), 1));
    assert_eq!(tokens[2], Token::new(TokenType::Char, " ".to_string(), 1));
}

#[test]
fn unterminated_character_literal() {
    let expected = vec![(1, "Unterminated character literal".to_string())];
    assert_eq!(messages("'ab'"), {
        let mut twice = expected.clone();
        twice.extend(expected.clone());
        twice
    });
    assert_eq!(messages("'a"), expected);
    assert_eq!(messages("'"), expected);
    assert_eq!(kinds("'a"), vec![TokenType::Eof]);
    assert_eq!(kinds("'ab;"), vec![TokenType::Semicolon, TokenType::Eof]);
}

#[test]
fn line_comments_run_to_the_end_of_the_line() {
    assert_eq!(
        kinds("1 // two three\n4"),
        vec![TokenType::Number, TokenType::Number, TokenType::Eof]
    );
    assert_eq!(kinds("// only a comment"), vec![TokenType::Eof]);
    let tokens = lex("// c\nx").0;
    assert_eq!(tokens[0].line, 2);
}

#[test]
fn block_comments_run_to_the_closing_pair() {
    assert_eq!(
        kinds("1 /* two * three / four */ 5"),
        vec![TokenType::Number, TokenType::Number, TokenType::Eof]
    );
    assert_eq!(kinds("/**/"), vec![TokenType::Eof]);
    assert_eq!(kinds("/***/x"), vec![TokenType::Ident, TokenType::Eof]);
    assert!(messages("/* a */").is_empty());
}

#[test]
fn block_comments_count_their_lines() {
    let tokens = lex("/* a\nb\nc */ x").0;
    assert_eq!(tokens[0], Token::new(TokenType::Ident, "x".to_string(), 3));
}

#[test]
fn unterminated_block_comment() {
    assert_eq!(
        messages("/* abc"),
        vec![(1, "Unterminated block comment".to_string())]
    );
    assert_eq!(
        messages("x /* a\nb *"),
        vec![(2, "Unterminated block comment".to_string())]
    );
    assert_eq!(messages("/*/"), vec![(1, "Unterminated block comment".to_string())]);
    assert_eq!(kinds("x /* a"), vec![TokenType::Ident, TokenType::Eof]);
}

#[test]
fn whitespace_is_skipped_and_newlines_counted() {
    let tokens = lex(" \t\r\na\n\n  b").0;
    assert_eq!(tokens[0], Token::new(TokenType::Ident, "a".to_string(), 2));
    assert_eq!(tokens[1], Token::new(TokenType::Ident, "b".to_string(), 4));
    assert_eq!(tokens[2], Token::new(TokenType::Eof, String::new(), 4));
}

#[test]
fn an_unexpected_symbol_is_reported_and_skipped() {
    let (tokens, diagnostics) = lex("1 @ 2");
    assert_eq!(
        tokens.iter().map(|t| t.ty).collect::<Vec<_>>(),
        vec![TokenType::Number, TokenType::Number, TokenType::Eof]
    );
    assert_eq!(diagnostics.len(), 1);
    assert_eq!(diagnostics[0].line, 1);
    assert_eq!(diagnostics[0].message, "Unexpected symbol '@'");
}

#[test]
fn several_lexical_errors_in_one_chunk() {
    assert_eq!(
        messages("#\n$ x\n\"open"),
        vec![
            (1, "Unexpected symbol '#'".to_string()),
            (2, "Unexpected symbol '$'".to_string()),
            (3, "Unterminated string literal".to_string()),
        ]
    );
    assert_eq!(kinds("#\n$ x\n\"open"), vec![TokenType::Ident, TokenType::Eof]);
}

#[test]
fn a_symbol_outside_ascii_is_unexpected() {
    assert_eq!(messages("é"), vec![(1, "Unexpected symbol 'é'".to_string())]);
    assert_eq!(kinds("é1"), vec![TokenType::Number, TokenType::Eof]);
}

#[test]
fn a_statement() {
    let tokens = lex("let x = 1 + 2;").0;
    let expected = vec![
        Token::new(TokenType::Let, "let".to_string(), 1),
        Token::new(TokenType::Ident, "x".to_string(), 1),
        Token::new(TokenType::Eq, "=".to_string(), 1),
        Token::new(TokenType::Number, "1".to_string(), 1),
        Token::new(TokenType::Plus, "+".to_string(), 1),
        Token::new(TokenType::Number, "2".to_string(), 1),
        Token::new(TokenType::Semicolon, ";".to_string(), 1),
        Token::new(TokenType::Eof, String::new(), 1),
    ];
    assert_eq!(tokens, expected);
}

#[test]
fn scanning_twice_adds_only_an_eof() {
    let mut lexer = Lexer::new("a".to_string());
    lexer.scan_tokens();
    let again = lexer.scan_tokens().len();
    assert_eq!(again, 3);
}

#[test]
fn token_as_text() {
    let token = Token::new(TokenType::Ident, "abc".to_string(), 7);
    assert_eq!(token.to_string(), "[Ident abc]");
    assert_eq!(Token::new(TokenType::Eof, String::new(), 1).to_string(), "[Eof ]");
    assert_eq!(token.clone(), token);
}

#[test]
fn diagnostics_are_rendered_with_their_line() {
    let diagnostics = lex("\n\n@").1;
    assert_eq!(diagnostics[0].render(), "[Line: 3] Error: Unexpected symbol '@'");
    assert_eq!(stellar::error(120, "boom".to_string()), "[Line: 120] Error: boom");
    assert_eq!(stellar::error(0, String::new()), "[Line: 0] Error: ");
    assert_eq!(
        stellar::error(u32::MAX, "x".to_string()),
        "[Line: 4294967295] Error: x"
    );
}

use stellar::lang::{
    BinaryOp, Diagnostic, Expr, Lexer, Literal, LogicalOp, Number, Parser, Stmt, Token,
    TokenType, UnaryOp,
};

fn number(x: f64) -> Number {
    Number::from_bits(x.to_bits())
}

fn values(tokens: &[Token]) -> Vec<Number> {
    tokens
        .iter()
        .map(|t| match t.ty {
            TokenType::Number => number(t.lexeme.parse::<f64>().unwrap()),
            _ => Number::from_bits(0),
        })
        .collect()
}

fn parse_tokens(tokens: Vec<Token>) -> (Vec<Stmt>, Vec<Diagnostic>) {
    let numbers = values(&tokens);
    let mut parser = Parser::new(&tokens, &numbers);
    let statements = parser.parse();
    (statements, parser.into_diagnostics())
}

fn parse(source: &str) -> (Vec<Stmt>, Vec<Diagnostic>) {
    let mut lexer = Lexer::new(source.to_string());
    lexer.scan_tokens();
    let (tokens, diagnostics) = lexer.into_parts();
    assert!(diagnostics.is_empty(), "{diagnostics:?}");
    parse_tokens(tokens)
}

fn statements(source: &str) -> Vec<Stmt> {
    let (statements, diagnostics) = parse(source);
    assert!(diagnostics.is_empty(), "{diagnostics:?}");
    statements
}

fn errors(source: &str) -> Vec<(u32, String)> {
    parse(source).1.iter().map(|d| (d.line, d.message.clone())).collect()
}

fn expression(source: &str) -> Expr {
    let mut parsed = statements(&format!("{source};"));
    assert_eq!(parsed.len(), 1);
    match parsed.remove(0) {
        Stmt::Expr(e) => *e,
        other => panic!("{other:?}"),
    }
}

fn num(x: f64) -> Box<Expr> {
    Box::new(Expr::Literal(Literal::Number(number(x))))
}

fn var(name: &str) -> Box<Expr> {
    Box::new(Expr::Variable(name.to_string()))
}

fn binary(l: Box<Expr>, op: BinaryOp, r: Box<Expr>) -> Box<Expr> {
    Box::new(Expr::Binary(l, op, r))
}

#[test]
fn an_empty_program() {
    assert_eq!(statements(""), vec![]);
    assert_eq!(parse_tokens(vec![]), (vec![], vec![]));
    assert_eq!(
        parse_tokens(vec![Token::new(TokenType::Eof, String::new(), 1)]),
        (vec![], vec![])
    );
}

#[test]
fn multiplication_is_parsed_below_addition() {
    assert_eq!(
        expression("1 + 2 * 3"),
        *binary(num(1.0), BinaryOp::Add, binary(num(2.0), BinaryOp::Mul, num(3.0)))
    );
    assert_eq!(
        expression("1 * 2 + 3"),
        *binary(binary(num(1.0), BinaryOp::Mul, num(2.0)), BinaryOp::Add, num(3.0))
    );
}

#[test]
fn binary_operators_group_to_the_left() {
    assert_eq!(
        expression("1 - 2 - 3"),
        *binary(binary(num(1.0), BinaryOp::Sub, num(2.0)), BinaryOp::Sub, num(3.0))
    );
    assert_eq!(
        expression("8 / 4 / 2"),
        *binary(binary(num(8.0), BinaryOp::Div, num(4.0)), BinaryOp::Div, num(2.0))
    );
    assert_eq!(
        expression("1 < 2 < 3"),
        *binary(binary(num(1.0), BinaryOp::Lt, num(2.0)), BinaryOp::Lt, num(3.0))
    );
    assert_eq!(
        expression("1 == 2 != 3"),
        *binary(binary(num(1.0), BinaryOp::Equal, num(2.0)), BinaryOp::NotEqual, num(3.0))
    );
}

#[test]
fn the_precedence_levels() {
    assert_eq!(
        expression("1 == 2 < 3 + 4 * 5"),
        *binary(
            num(1.0),
            BinaryOp::Equal,
            binary(
                num(2.0),
                BinaryOp::Lt,
                binary(num(3.0), BinaryOp::Add, binary(num(4.0), BinaryOp::Mul, num(5.0)))
            )
        )
    );
    assert_eq!(
        expression("1 * 2 + 3 >= 4 != 5"),
        *binary(
            binary(
                binary(binary(num(1.0), BinaryOp::Mul, num(2.0)), BinaryOp::Add, num(3.0)),
                BinaryOp::Gte,
                num(4.0)
            ),
            BinaryOp::NotEqual,
            num(5.0)
        )
    );
    assert_eq!(expression("1 > 2"), *binary(num(1.0), BinaryOp::Gt, num(2.0)));
    assert_eq!(expression("1 <= 2"), *binary(num(1.0), BinaryOp::Lte, num(2.0)));
}

#[test]
fn unary_operators_nest_to_the_right() {
    assert_eq!(
        expression("-!-1"),
        Expr::Unary(
            UnaryOp::Minus,
            Box::new(Expr::Unary(UnaryOp::Bang, Box::new(Expr::Unary(UnaryOp::Minus, num(1.0)))))
        )
    );
    assert_eq!(
        expression("-1 * 2"),
        *binary(Box::new(Expr::Unary(UnaryOp::Minus, num(1.0))), BinaryOp::Mul, num(2.0))
    );
    assert_eq!(
        expression("1 - -2"),
        *binary(num(1.0), BinaryOp::Sub, Box::new(Expr::Unary(UnaryOp::Minus, num(2.0))))
    );
}

#[test]
fn atoms() {
    assert_eq!(expression("null"), Expr::Literal(Literal::Null));
    assert_eq!(expression("true"), Expr::Literal(Literal::Bool(true)));
    assert_eq!(expression("false"), Expr::Literal(Literal::Bool(false)));
    assert_eq!(expression("3.5"), *num(3.5));
    assert_eq!(expression("7."), *num(7.0));
    assert_eq!(expression("\"hi\""), Expr::Literal(Literal::String("hi".to_string())));
    assert_eq!(expression("'c'"), Expr::Literal(Literal::Char('c')));
    assert_eq!(expression("name"), *var("name"));
    assert_eq!(expression("(1)"), Expr::Grouping(num(1.0)));
    assert_eq!(
        expression("(1 + 2) * 3"),
        *binary(
            Box::new(Expr::Grouping(binary(num(1.0), BinaryOp::Add, num(2.0)))),
            BinaryOp::Mul,
            num(3.0)
        )
    );
}

#[test]
fn assignment_groups_to_the_right() {
    assert_eq!(
        expression("a = b = 1"),
        Expr::Assign(
            "a".to_string(),
            Box::new(Expr::Assign("b".to_string(), num(1.0)))
        )
    );
    assert_eq!(
        expression("a = 1 + 2"),
        Expr::Assign("a".to_string(), binary(num(1.0), BinaryOp::Add, num(2.0)))
    );
}

#[test]
fn assignment_needs_a_variable_on_the_left() {
    assert_eq!(errors("1 = 2;"), vec![(1, "at '=', lvalue required".to_string())]);
    assert_eq!(errors("(a) = 2;"), vec![(1, "at '=', lvalue required".to_string())]);
    assert_eq!(errors("a + b = 2;\n3;"), vec![(1, "at '=', lvalue required".to_string())]);
    assert_eq!(parse("a + b = 2;\n3;").0, vec![Stmt::Expr(num(3.0))]);
}

#[test]
fn and_and_or_are_no_operators_of_the_grammar() {
    assert_eq!(
        errors("a and b;"),
        vec![(1, "at 'and', Expected ';' after expression, found 'and'".to_string())]
    );
    assert_eq!(
        errors("a or b;"),
        vec![(1, "at 'or', Expected ';' after expression, found 'or'".to_string())]
    );
    let by_hand = Expr::Logical(var("a"), LogicalOp::Or, var("b"));
    assert_eq!(by_hand.clone(), by_hand);
}

#[test]
fn declarations() {
    assert_eq!(statements("let x;"), vec![Stmt::Let("x".to_string(), None)]);
    assert_eq!(statements("let x = 1;"), vec![Stmt::Let("x".to_string(), Some(num(1.0)))]);
    assert_eq!(
        statements("let x = y = 2;"),
        vec![Stmt::Let(
            "x".to_string(),
            Some(Box::new(Expr::Assign("y".to_string(), num(2.0))))
        )]
    );
}

#[test]
fn malformed_declarations() {
    assert_eq!(
        errors("let 1 = 2;"),
        vec![(1, "at '1', Expected identifier, found '1'".to_string())]
    );
    assert_eq!(
        errors("let x 2;"),
        vec![(1, "at '2', Expected ';' after declaration, found '2'".to_string())]
    );
    assert_eq!(
        errors("let x = 2"),
        vec![(1, "at '', Expected ';' after declaration, found ''".to_string())]
    );
    assert_eq!(
        errors("let"),
        vec![(1, "at '', Expected identifier, found ''".to_string())]
    );
    assert_eq!(
        errors("let if = 1;"),
        vec![(1, "at 'if', Expected identifier, found 'if'".to_string())]
    );
}

#[test]
fn blocks() {
    assert_eq!(statements("{}"), vec![Stmt::Block(vec![])]);
    assert_eq!(
        statements("{ let x = 1; x; { } }"),
        vec![Stmt::Block(vec![
            Stmt::Let("x".to_string(), Some(num(1.0))),
            Stmt::Expr(var("x")),
            Stmt::Block(vec![]),
        ])]
    );
}

#[test]
fn an_unclosed_block() {
    assert_eq!(
        errors("{ 1;"),
        vec![(1, "at '', Expected '}' after block, found ''".to_string())]
    );
    assert_eq!(errors("}"), vec![(1, "at '}', Expected expression".to_string())]);
}

#[test]
fn conditionals() {
    assert_eq!(
        statements("if (a) { b; }"),
        vec![Stmt::If(var("a"), Box::new(Stmt::Expr(var("b"))), None)]
    );
    assert_eq!(
        statements("if (a) { b; } else { c; }"),
        vec![Stmt::If(
            var("a"),
            Box::new(Stmt::Expr(var("b"))),
            Some(Box::new(Stmt::Expr(var("c"))))
        )]
    );
    assert_eq!(
        statements("if (a) { { b; c; } }"),
        vec![Stmt::If(
            var("a"),
            Box::new(Stmt::Block(vec![Stmt::Expr(var("b")), Stmt::Expr(var("c"))])),
            None
        )]
    );
    assert_eq!(
        statements("if (a) { if (b) { c; } else { d; } } e;"),
        vec![
            Stmt::If(
                var("a"),
                Box::new(Stmt::If(
                    var("b"),
                    Box::new(Stmt::Expr(var("c"))),
                    Some(Box::new(Stmt::Expr(var("d"))))
                )),
                None
            ),
            Stmt::Expr(var("e")),
        ]
    );
}

#[test]
fn malformed_conditionals() {
    let stray = (1, "at '}', Expected expression".to_string());
    assert_eq!(
        errors("if a { b; }"),
        vec![(1, "at 'a', Expected '(' before expression, found 'a'".to_string()), stray.clone()]
    );
    assert_eq!(
        errors("if (a { b; }"),
        vec![(1, "at '{', Expected ')' after expression, found '{'".to_string()), stray.clone()]
    );
    assert_eq!(
        errors("if (a) b;"),
        vec![(1, "at 'b', Expected '{' after condition, found 'b'".to_string())]
    );
    assert_eq!(
        errors("if (a) { b; c; }"),
        vec![(1, "at 'c', Expected '}' after statement, found 'c'".to_string()), stray.clone()]
    );
    assert_eq!(
        errors("if (a) { b; } else c;"),
        vec![(1, "at 'c', Expected '{' after else branch, found 'c'".to_string())]
    );
    assert_eq!(
        errors("if (a) { let x; }"),
        vec![(1, "at 'let', Expected expression".to_string()), stray]
    );
}

#[test]
fn print_statements_are_parsed_from_print_tokens() {
    let tokens = vec![
        Token::new(TokenType::Print, "print".to_string(), 1),
        Token::new(TokenType::Number, "1".to_string(), 1),
        Token::new(TokenType::Plus, "+".to_string(), 1),
        Token::new(TokenType::Number, "2".to_string(), 1),
        Token::new(TokenType::Semicolon, ";".to_string(), 1),
        Token::new(TokenType::Eof, String::new(), 1),
    ];
    assert_eq!(
        parse_tokens(tokens),
        (vec![Stmt::Print(binary(num(1.0), BinaryOp::Add, num(2.0)))], vec![])
    );
    let unfinished = vec![
        Token::new(TokenType::Print, "print".to_string(), 3),
        Token::new(TokenType::Ident, "x".to_string(), 3),
        Token::new(TokenType::Eof, String::new(), 4),
    ];
    let (statements, diagnostics) = parse_tokens(unfinished);
    assert!(statements.is_empty());
    assert_eq!(diagnostics.len(), 1);
    assert_eq!(diagnostics[0].line, 4);
    assert_eq!(diagnostics[0].message, "at '', Expected ';' after expression, found ''");
}

#[test]
fn print_is_an_identifier_in_source_text() {
    assert_eq!(
        errors("print 1;"),
        vec![(1, "at '1', Expected ';' after expression, found '1'".to_string())]
    );
}

#[test]
fn a_missing_semicolon() {
    assert_eq!(
        errors("1 + 2"),
        vec![(1, "at '', Expected ';' after expression, found ''".to_string())]
    );
    assert_eq!(
        errors("1 2;"),
        vec![(1, "at '2', Expected ';' after expression, found '2'".to_string())]
    );
}

#[test]
fn a_missing_expression() {
    assert_eq!(errors(";"), vec![(1, "at ';', Expected expression".to_string())]);
    assert_eq!(errors("1 + ;"), vec![(1, "at ';', Expected expression".to_string())]);
    assert_eq!(errors("1 +"), vec![(1, "at '', Expected expression".to_string())]);
    assert_eq!(errors("()"), vec![(1, "at ')', Expected expression".to_string())]);
    assert_eq!(
        errors("(1;"),
        vec![(1, "at ';', Expected ')' after expression, found ';'".to_string())]
    );
    assert_eq!(errors("+= 1;"), vec![(1, "at '+=', Expected expression".to_string())]);
}

#[test]
fn parsing_resumes_after_the_next_semicolon() {
    let (statements, diagnostics) = parse("1 + * 2 3; 4;\n5 5; 6;");
    assert_eq!(statements, vec![Stmt::Expr(num(4.0)), Stmt::Expr(num(6.0))]);
    assert_eq!(
        diagnostics.iter().map(|d| (d.line, d.message.clone())).collect::<Vec<_>>(),
        vec![
            (1, "at '*', Expected expression".to_string()),
            (2, "at '5', Expected ';' after expression, found '5'".to_string()),
        ]
    );
}

#[test]
fn parsing_resumes_before_a_statement_keyword() {
    let (statements, diagnostics) = parse("1 + + 2 let x = 3;");
    assert_eq!(statements, vec![Stmt::Let("x".to_string(), Some(num(3.0)))]);
    assert_eq!(diagnostics.len(), 1);
    let (statements, diagnostics) = parse(") ) if (a) { b; }");
    assert_eq!(
        statements,
        vec![Stmt::If(var("a"), Box::new(Stmt::Expr(var("b"))), None)]
    );
    assert_eq!(diagnostics.len(), 1);
    for keyword in ["struct", "fun", "for", "while", "return"] {
        let (statements, diagnostics) = parse(&format!(") ) {keyword} ; 1;"));
        assert_eq!(statements, vec![Stmt::Expr(num(1.0))], "{keyword}");
        assert_eq!(diagnostics.len(), 2, "{keyword}");
        assert_eq!(diagnostics[1].message, format!("at '{keyword}', Expected expression"));
    }
}

#[test]
fn an_error_reports_its_line() {
    assert_eq!(
        errors("1;\n\n2 +;\n"),
        vec![(3, "at ';', Expected expression".to_string())]
    );
}

#[test]
fn a_character_token_of_another_length_is_malformed() {
    let tokens = vec![
        Token::new(TokenType::Char, "ab".to_string(), 2),
        Token::new(TokenType::Semicolon, ";".to_string(), 2),
        Token::new(TokenType::Eof, String::new(), 2),
    ];
    let (statements, diagnostics) = parse_tokens(tokens);
    assert!(statements.is_empty());
    assert_eq!(diagnostics.len(), 1);
    assert_eq!(diagnostics[0].message, "at 'ab', Malformed character literal");
}

#[test]
fn tokens_without_an_end_marker_are_parsed_to_their_end() {
    let tokens = vec![
        Token::new(TokenType::Ident, "x".to_string(), 1),
        Token::new(TokenType::Semicolon, ";".to_string(), 1),
    ];
    assert_eq!(parse_tokens(tokens), (vec![Stmt::Expr(var("x"))], vec![]));
    let open = vec![Token::new(TokenType::Ident, "x".to_string(), 5)];
    let (statements, diagnostics) = parse_tokens(open);
    assert!(statements.is_empty());
    assert_eq!(diagnostics[0].line, 0);
    assert_eq!(diagnostics[0].message, "at '', Expected ';' after expression, found ''");
}

#[test]
fn a_number_token_without_a_value_is_zero() {
    let tokens = vec![
        Token::new(TokenType::Number, "5".to_string(), 1),
        Token::new(TokenType::Semicolon, ";".to_string(), 1),
        Token::new(TokenType::Eof, String::new(), 1),
    ];
    let numbers = vec![];
    let mut parser = Parser::new(&tokens, &numbers);
    assert_eq!(parser.parse(), vec![Stmt::Expr(num(0.0))]);
    let numbers = vec![number(5.0)];
    let mut parser = Parser::new(&tokens, &numbers);
    assert_eq!(parser.parse(), vec![Stmt::Expr(num(5.0))]);
    assert!(parser.diagnostics().is_empty());
}

#[test]
fn parsing_again_gives_nothing_more() {
    let tokens = vec![
        Token::new(TokenType::Ident, "x".to_string(), 1),
        Token::new(TokenType::Semicolon, ";".to_string(), 1),
        Token::new(TokenType::Eof, String::new(), 1),
    ];
    let numbers = values(&tokens);
    let mut parser = Parser::new(&tokens, &numbers);
    assert_eq!(parser.parse().len(), 1);
    assert_eq!(parser.parse().len(), 0);
}

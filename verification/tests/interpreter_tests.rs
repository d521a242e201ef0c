use stellar::lang::{
    BinaryOp, ErrorKind, Expr, Interpreter, InterpreterMode, InterpreterProperties, Literal,
    LogicalOp, Number, Reply, Request, RuntimeError, Stmt, UnaryOp,
};
use stellar::Stellar;

fn number(x: f64) -> Number {
    Number::from_bits(x.to_bits())
}

fn float(n: Number) -> f64 {
    f64::from_bits(n.to_bits())
}

fn answer(request: Request) -> Option<Reply> {
    match request {
        Request::Finished => None,
        Request::Continue => Some(Reply::Nothing),
        Request::Numeral(text) => Some(Reply::Number(number(text.parse::<f64>().unwrap()))),
        Request::Arithmetic(op, a, b) => {
            let (x, y) = (float(a), float(b));
            let result = match op {
                BinaryOp::Add => x + y,
                BinaryOp::Sub => x - y,
                BinaryOp::Mul => x * y,
                BinaryOp::Div => {
                    assert!(y != 0.0, "asked to divide by zero");
                    x / y
                }
                other => panic!("asked for {other:?}"),
            };
            Some(Reply::Number(number(result)))
        }
        Request::Text(n) => Some(Reply::Text(float(n).to_string())),
    }
}

fn feed(stellar: &mut Stellar, source: &str) -> Vec<String> {
    let mut request = stellar.run(source.to_string());
    while let Some(reply) = answer(request) {
        request = stellar.resume(reply);
    }
    stellar.take_output()
}

fn repl(source: &str) -> Vec<String> {
    let mut stellar = Stellar::new(InterpreterProperties { mode: InterpreterMode::Repl });
    feed(&mut stellar, source)
}

fn script(source: &str) -> Vec<String> {
    let mut stellar = Stellar::new(InterpreterProperties { mode: InterpreterMode::Script });
    feed(&mut stellar, source)
}

fn execute(mode: InterpreterMode, statements: Vec<Stmt>) -> Vec<String> {
    let mut interpreter = Interpreter::new(InterpreterProperties { mode });
    interpreter.interpret(&statements);
    let mut request = interpreter.request();
    while let Some(reply) = answer(request) {
        request = interpreter.step(reply);
    }
    interpreter.take_output()
}

fn lit(x: f64) -> Box<Expr> {
    Box::new(Expr::Literal(Literal::Number(number(x))))
}

fn text(s: &str) -> Box<Expr> {
    Box::new(Expr::Literal(Literal::String(s.to_string())))
}

#[test]
fn multiplication_binds_tighter_than_addition() {
    assert_eq!(repl("1 + 2 * 3;"), vec!["7"]);
    assert_eq!(repl("(1 + 2) * 3;"), vec!["9"]);
    assert_eq!(repl("2 * 3 + 1;"), vec!["7"]);
}

#[test]
fn arithmetic_is_that_of_doubles() {
    assert_eq!(repl("0.1 + 0.2;"), vec!["0.30000000000000004"]);
    assert_eq!(repl("1 / 3;"), vec!["0.3333333333333333"]);
    assert_eq!(repl("7 - 10;"), vec!["-3"]);
    assert_eq!(repl("10 - 4 - 3;"), vec!["3"]);
    assert_eq!(repl("100 / 10 / 5;"), vec!["2"]);
    assert_eq!(repl("2.5 * 4;"), vec!["10"]);
    assert_eq!(repl("- 3;"), vec!["-3"]);
    assert_eq!(repl("--3;"), vec!["3"]);
}

#[test]
fn division_by_zero_is_an_error() {
    let expected = vec!["Runtime Error: Division by zero: cannot divide by zero"];
    assert_eq!(repl("1 / 0;"), expected);
    assert_eq!(repl("0 / 0;"), expected);
    assert_eq!(repl("1 / 0.0;"), expected);
    assert_eq!(repl("1 / -0;"), expected);
    assert_eq!(repl("1 / (2 - 2);"), expected);
    assert_eq!(repl("0 / 1;"), vec!["0"]);
}

#[test]
fn comparisons_of_numbers() {
    assert_eq!(repl("1 < 2;"), vec!["true"]);
    assert_eq!(repl("2 < 1;"), vec!["false"]);
    assert_eq!(repl("2 <= 2;"), vec!["true"]);
    assert_eq!(repl("2 > 2;"), vec!["false"]);
    assert_eq!(repl("2 >= 2;"), vec!["true"]);
    assert_eq!(repl("-1 < 1;"), vec!["true"]);
    assert_eq!(repl("-1 > -2;"), vec!["true"]);
    assert_eq!(repl("1 == 1;"), vec!["true"]);
    assert_eq!(repl("1 != 1;"), vec!["false"]);
    assert_eq!(repl("0 == -0;"), vec!["true"]);
    assert_eq!(repl("0.1 + 0.2 == 0.3;"), vec!["false"]);
    assert_eq!(repl("1 + 1 == 2;"), vec!["true"]);
}

#[test]
fn undefined_operators_name_both_types() {
    assert_eq!(
        repl("true + 1;"),
        vec!["Runtime Error: Operator not defined: 'Add' not supported for types 'bool' and 'number'"]
    );
    assert_eq!(
        repl("1 + \"a\";"),
        vec!["Runtime Error: Operator not defined: 'Add' not supported for types 'number' and 'String'"]
    );
    assert_eq!(
        repl("\"a\" - \"b\";"),
        vec!["Runtime Error: Operator not defined: 'Sub' not supported for types 'String' and 'String'"]
    );
    assert_eq!(
        repl("\"a\" * 2;"),
        vec!["Runtime Error: Operator not defined: 'Mul' not supported for types 'String' and 'number'"]
    );
    assert_eq!(
        repl("true < false;"),
        vec!["Runtime Error: Operator not defined: 'Lt' not supported for types 'bool' and 'bool'"]
    );
    assert_eq!(
        repl("'a' >= 'b';"),
        vec!["Runtime Error: Operator not defined: 'Gte' not supported for types 'char' and 'char'"]
    );
    assert_eq!(
        repl("null == null;"),
        vec!["Runtime Error: Operator not defined: 'Equal' not supported for types 'null' and 'null'"]
    );
    assert_eq!(
        repl("'a' != 1;"),
        vec!["Runtime Error: Operator not defined: 'NotEqual' not supported for types 'char' and 'number'"]
    );
    assert_eq!(
        repl("1 / true;"),
        vec!["Runtime Error: Operator not defined: 'Div' not supported for types 'number' and 'bool'"]
    );
    assert_eq!(
        repl("1 > null;"),
        vec!["Runtime Error: Operator not defined: 'Gt' not supported for types 'number' and 'null'"]
    );
    assert_eq!(
        repl("'a' <= \"a\";"),
        vec!["Runtime Error: Operator not defined: 'Lte' not supported for types 'char' and 'String'"]
    );
}

#[test]
fn negation_is_for_numbers_only() {
    assert_eq!(
        repl("-\"a\";"),
        vec!["Runtime Error: Operator not defined: unary negate not supported for type 'String'"]
    );
    assert_eq!(
        repl("-true;"),
        vec!["Runtime Error: Operator not defined: unary negate not supported for type 'bool'"]
    );
    assert_eq!(
        repl("-null;"),
        vec!["Runtime Error: Operator not defined: unary negate not supported for type 'null'"]
    );
    assert_eq!(
        repl("-'c';"),
        vec!["Runtime Error: Operator not defined: unary negate not supported for type 'char'"]
    );
}

#[test]
fn strings_are_concatenated() {
    assert_eq!(repl("\"a\" + \"b\";"), vec!["ab"]);
    assert_eq!(repl("\"a\" + 1;"), vec!["a1"]);
    assert_eq!(repl("\"a\" + 1.5;"), vec!["a1.5"]);
    assert_eq!(repl("\"a\" + 'b';"), vec!["ab"]);
    assert_eq!(repl("\"a\" + 1 + 2;"), vec!["a12"]);
    assert_eq!(repl("\"a\" + (1 + 2);"), vec!["a3"]);
    assert_eq!(repl("\"\" + \"\";"), vec![""]);
}

#[test]
fn strings_bools_and_chars_are_compared() {
    assert_eq!(repl("\"a\" == \"a\";"), vec!["true"]);
    assert_eq!(repl("\"a\" == \"b\";"), vec!["false"]);
    assert_eq!(repl("\"a\" != \"b\";"), vec!["true"]);
    assert_eq!(repl("\"a1\" == \"a\" + 1;"), vec!["true"]);
    assert_eq!(repl("true == true;"), vec!["true"]);
    assert_eq!(repl("true == false;"), vec!["false"]);
    assert_eq!(repl("true != false;"), vec!["true"]);
    assert_eq!(repl("'a' == 'a';"), vec!["true"]);
    assert_eq!(repl("'a' != 'a';"), vec!["false"]);
    assert_eq!(repl("'a' == 'b';"), vec!["false"]);
}

#[test]
fn bang_gives_the_truth_value() {
    assert_eq!(repl("!0;"), vec!["false"]);
    assert_eq!(repl("!1;"), vec!["true"]);
    assert_eq!(repl("!-1;"), vec!["false"]);
    assert_eq!(repl("!\"\";"), vec!["false"]);
    assert_eq!(repl("!\"a\";"), vec!["true"]);
    assert_eq!(repl("!true;"), vec!["true"]);
    assert_eq!(repl("!false;"), vec!["false"]);
    assert_eq!(repl("!'0';"), vec!["false"]);
    assert_eq!(repl("!'1';"), vec!["true"]);
    assert_eq!(repl("!null;"), vec!["false"]);
    assert_eq!(repl("!!0;"), vec!["false"]);
}

#[test]
fn literals_are_written_plainly() {
    assert_eq!(repl("1;"), vec!["1"]);
    assert_eq!(repl("1.50;"), vec!["1.5"]);
    assert_eq!(repl("\"text\";"), vec!["text"]);
    assert_eq!(repl("true;"), vec!["true"]);
    assert_eq!(repl("false;"), vec!["false"]);
    assert_eq!(repl("'c';"), vec!["c"]);
    assert_eq!(repl("null;"), vec!["null"]);
    assert_eq!(repl("((2));"), vec!["2"]);
}

#[test]
fn a_declared_variable_is_read() {
    assert_eq!(repl("let x = 5; x;"), vec!["5"]);
    assert_eq!(repl("let x = 2; let y = x * x; y + 1;"), vec!["5"]);
    assert_eq!(repl("let s = \"a\"; s + s;"), vec!["aa"]);
}

#[test]
fn an_uninitialized_variable_cannot_be_read() {
    assert_eq!(
        repl("let x; x;"),
        vec!["Runtime Error: Uninitialized access: variable 'x' was not initialized, cannot read from unititialized memory"]
    );
    assert_eq!(repl("let x; x = 3; x;"), vec!["3", "3"]);
}

#[test]
fn a_null_variable_is_initialized() {
    assert_eq!(repl("let x = null; x;"), vec!["null"]);
}

#[test]
fn an_undeclared_variable_cannot_be_assigned() {
    assert_eq!(repl("x = 5;"), vec!["Runtime Error: Undefined variable: 'x'"]);
    assert_eq!(
        repl("x = 5; x;"),
        vec![
            "Runtime Error: Undefined variable: 'x'",
            "Runtime Error: Undefined variable: 'x'",
        ]
    );
    assert_eq!(repl("{ let x = 1; } x = 2;"), vec!["Runtime Error: Undefined variable: 'x'"]);
}

#[test]
fn the_target_is_checked_before_the_value_is_evaluated() {
    assert_eq!(repl("x = 1 / 0;"), vec!["Runtime Error: Undefined variable: 'x'"]);
    assert_eq!(
        repl("let x = 1; x = 1 / 0; x;"),
        vec!["Runtime Error: Division by zero: cannot divide by zero", "1"]
    );
}

#[test]
fn an_undeclared_variable_cannot_be_read() {
    assert_eq!(repl("y;"), vec!["Runtime Error: Undefined variable: 'y'"]);
}

#[test]
fn an_assignment_has_the_assigned_value() {
    assert_eq!(repl("let x = 1; x = 2;"), vec!["2"]);
    assert_eq!(repl("let x = 1; let y = 1; x = y = 7; x; y;"), vec!["7", "7", "7"]);
}

#[test]
fn shadowing_does_not_touch_the_outer_binding() {
    assert_eq!(repl("let x = 1; { let x = 2; } x;"), vec!["1"]);
    assert_eq!(repl("let x = 1; { let x = 2; x; } x;"), vec!["2", "1"]);
    assert_eq!(repl("let x = 1; { let x = 2; { let x = 3; x; } x; } x;"), vec!["3", "2", "1"]);
}

#[test]
fn assignment_reaches_the_outer_binding() {
    assert_eq!(repl("let x = 1; { x = 2; } x;"), vec!["2", "2"]);
    assert_eq!(script("let x = 1; { x = 2; } x;"), Vec::<String>::new());
    assert_eq!(repl("let x = 1; { { x = 2; } } x;"), vec!["2", "2"]);
    assert_eq!(repl("let x = 1; { let y = 5; x = y; } x;"), vec!["5", "5"]);
}

#[test]
fn assignment_writes_the_innermost_binding() {
    assert_eq!(repl("let x = 1; { let x = 2; x = 3; x; } x;"), vec!["3", "3", "1"]);
}

#[test]
fn block_bindings_do_not_leak() {
    assert_eq!(
        repl("{ let y = 1; y; } y;"),
        vec!["1", "Runtime Error: Undefined variable: 'y'"]
    );
}

#[test]
fn redeclaring_overwrites_in_the_same_scope() {
    assert_eq!(repl("let x = 1; let x = 2; x;"), vec!["2"]);
    assert_eq!(repl("let x = 1; let x; x = 4; x;"), vec!["4", "4"]);
    assert_eq!(repl("let x = 1; { let x = 2; let x = 3; x; } x;"), vec!["3", "1"]);
}

#[test]
fn a_failed_initializer_leaves_the_variable_uninitialized() {
    assert_eq!(
        repl("let x = 1 / 0; x;"),
        vec![
            "Runtime Error: Division by zero: cannot divide by zero",
            "Runtime Error: Uninitialized access: variable 'x' was not initialized, cannot read from unititialized memory",
        ]
    );
}

#[test]
fn an_error_ends_only_its_statement() {
    assert_eq!(
        repl("1 / 0; 2; true + 1; 3;"),
        vec![
            "Runtime Error: Division by zero: cannot divide by zero",
            "2",
            "Runtime Error: Operator not defined: 'Add' not supported for types 'bool' and 'number'",
            "3",
        ]
    );
    assert_eq!(
        repl("{ 1 / 0; 2; } 3;"),
        vec!["Runtime Error: Division by zero: cannot divide by zero", "2", "3"]
    );
}

#[test]
fn an_error_in_the_left_operand_skips_the_right_one() {
    assert_eq!(
        repl("let x = 1; (1 / 0) + (x = 2); x;"),
        vec!["Runtime Error: Division by zero: cannot divide by zero", "1"]
    );
}

#[test]
fn both_operands_are_evaluated_left_to_right() {
    assert_eq!(repl("let x = 1; (x = 2) + x;"), vec!["4"]);
    assert_eq!(repl("let x = 1; x + (x = 2);"), vec!["3"]);
}

#[test]
fn conditionals_take_one_branch() {
    assert_eq!(repl("if (1) { 10; }"), vec!["10"]);
    assert_eq!(repl("if (0) { 10; }"), Vec::<String>::new());
    assert_eq!(repl("if (0) { 10; } else { 20; }"), vec!["20"]);
    assert_eq!(repl("if (true) { 10; } else { 20; }"), vec!["10"]);
    assert_eq!(repl("if (\"\") { 10; } else { 20; }"), vec!["20"]);
    assert_eq!(repl("if ('0') { 10; } else { 20; }"), vec!["20"]);
    assert_eq!(repl("if (null) { 10; } else { 20; }"), vec!["20"]);
    assert_eq!(repl("if (1 < 2) { { 1; 2; } } 3;"), vec!["1", "2", "3"]);
    assert_eq!(repl("let x = 1; if (x == 1) { x = 5; } x;"), vec!["5", "5"]);
    assert_eq!(repl("if (1) { if (0) { 1; } else { 2; } }"), vec!["2"]);
}

#[test]
fn a_failed_condition_takes_no_branch() {
    assert_eq!(
        repl("if (1 / 0) { 10; } else { 20; } 30;"),
        vec!["Runtime Error: Division by zero: cannot divide by zero", "30"]
    );
}

#[test]
fn a_script_shows_only_what_it_prints() {
    assert_eq!(script("1 + 2;"), Vec::<String>::new());
    assert_eq!(script("let x = 1; x;"), Vec::<String>::new());
    assert_eq!(
        script("1 / 0;"),
        vec!["Runtime Error: Division by zero: cannot divide by zero"]
    );
}

#[test]
fn print_shows_in_both_modes() {
    for mode in [InterpreterMode::Repl, InterpreterMode::Script] {
        let program = vec![
            Stmt::Print(Box::new(Expr::Binary(lit(1.0), BinaryOp::Add, lit(2.0)))),
            Stmt::Print(text("hello")),
            Stmt::Print(Box::new(Expr::Literal(Literal::Null))),
            Stmt::Print(Box::new(Expr::Literal(Literal::Bool(false)))),
            Stmt::Print(Box::new(Expr::Literal(Literal::Char('z')))),
        ];
        assert_eq!(execute(mode, program), vec!["3", "hello", "null", "false", "z"]);
    }
}

#[test]
fn print_reports_its_error() {
    let program = vec![
        Stmt::Print(Box::new(Expr::Binary(lit(1.0), BinaryOp::Div, lit(0.0)))),
        Stmt::Print(lit(2.0)),
    ];
    assert_eq!(
        execute(InterpreterMode::Script, program),
        vec!["Runtime Error: Division by zero: cannot divide by zero", "2"]
    );
}

#[test]
fn or_returns_the_operand_that_decides() {
    let or = |l: Box<Expr>, r: Box<Expr>| vec![Stmt::Print(Box::new(Expr::Logical(l, LogicalOp::Or, r)))];
    assert_eq!(execute(InterpreterMode::Script, or(lit(2.0), lit(3.0))), vec!["2"]);
    assert_eq!(execute(InterpreterMode::Script, or(lit(0.0), lit(3.0))), vec!["3"]);
    assert_eq!(execute(InterpreterMode::Script, or(text(""), text("b"))), vec!["b"]);
    assert_eq!(execute(InterpreterMode::Script, or(lit(0.0), lit(0.0))), vec!["0"]);
}

#[test]
fn and_returns_the_operand_that_decides() {
    let and = |l: Box<Expr>, r: Box<Expr>| vec![Stmt::Print(Box::new(Expr::Logical(l, LogicalOp::And, r)))];
    assert_eq!(execute(InterpreterMode::Script, and(lit(2.0), lit(3.0))), vec!["3"]);
    assert_eq!(execute(InterpreterMode::Script, and(lit(0.0), lit(3.0))), vec!["0"]);
    assert_eq!(execute(InterpreterMode::Script, and(text("a"), text(""))), vec![""]);
}

#[test]
fn logical_operators_skip_the_right_operand() {
    let fails = || Box::new(Expr::Binary(lit(1.0), BinaryOp::Div, lit(0.0)));
    let program = vec![
        Stmt::Print(Box::new(Expr::Logical(lit(1.0), LogicalOp::Or, fails()))),
        Stmt::Print(Box::new(Expr::Logical(lit(0.0), LogicalOp::And, fails()))),
        Stmt::Print(Box::new(Expr::Logical(lit(0.0), LogicalOp::Or, fails()))),
    ];
    assert_eq!(
        execute(InterpreterMode::Script, program),
        vec!["1", "0", "Runtime Error: Division by zero: cannot divide by zero"]
    );
}

#[test]
fn statements_built_by_hand() {
    let program = vec![
        Stmt::Let("x".to_string(), Some(lit(2.0))),
        Stmt::If(
            Box::new(Expr::Variable("x".to_string())),
            Box::new(Stmt::Block(vec![
                Stmt::Let("x".to_string(), Some(text("inner"))),
                Stmt::Print(Box::new(Expr::Variable("x".to_string()))),
            ])),
            Some(Box::new(Stmt::Print(text("else")))),
        ),
        Stmt::Expr(Box::new(Expr::Assign(
            "x".to_string(),
            Box::new(Expr::Unary(UnaryOp::Minus, Box::new(Expr::Variable("x".to_string())))),
        ))),
        Stmt::Print(Box::new(Expr::Grouping(Box::new(Expr::Variable("x".to_string()))))),
    ];
    assert_eq!(execute(InterpreterMode::Script, program), vec!["inner", "-2"]);
}

#[test]
fn a_lexical_error_stops_the_whole_chunk() {
    let mut stellar = Stellar::new(InterpreterProperties { mode: InterpreterMode::Repl });
    assert_eq!(
        feed(&mut stellar, "let x = 1; 2; @ x;"),
        vec!["[Line: 1] Error: Unexpected symbol '@'"]
    );
    assert!(stellar.handle_error_runtime());
    assert!(!stellar.handle_error_runtime());
    assert_eq!(feed(&mut stellar, "x;"), vec!["Runtime Error: Undefined variable: 'x'"]);
}

#[test]
fn a_syntax_error_stops_the_whole_chunk() {
    let mut stellar = Stellar::new(InterpreterProperties { mode: InterpreterMode::Repl });
    assert_eq!(
        feed(&mut stellar, "let x = 1;\n2 +;\nx;"),
        vec!["[Line: 2] Error: at ';', Expected expression"]
    );
    assert!(stellar.handle_error_runtime());
    assert_eq!(feed(&mut stellar, "x;"), vec!["Runtime Error: Undefined variable: 'x'"]);
    assert!(!stellar.handle_error_runtime());
}

#[test]
fn several_syntax_errors_are_reported() {
    assert_eq!(
        repl("1 +;\nlet = 3;\n(4;\n5;"),
        vec![
            "[Line: 1] Error: at ';', Expected expression",
            "[Line: 2] Error: at '=', Expected identifier, found '='",
            "[Line: 3] Error: at ';', Expected ')' after expression, found ';'",
        ]
    );
}

#[test]
fn the_state_lasts_from_chunk_to_chunk() {
    let mut stellar = Stellar::new(InterpreterProperties { mode: InterpreterMode::Repl });
    assert_eq!(feed(&mut stellar, "let x = 20;"), Vec::<String>::new());
    assert_eq!(feed(&mut stellar, "x = x + 1;"), vec!["21"]);
    assert_eq!(feed(&mut stellar, ""), Vec::<String>::new());
    assert_eq!(feed(&mut stellar, "   // nothing\n"), Vec::<String>::new());
    assert_eq!(feed(&mut stellar, "x * 2;"), vec!["42"]);
    assert!(!stellar.handle_error_runtime());
}

#[test]
fn the_host_is_asked_for_each_numeral_once() {
    let mut stellar = Stellar::new(InterpreterProperties { mode: InterpreterMode::Script });
    let mut request = stellar.run("let x = 1.5 + 2;".to_string());
    assert_eq!(request, Request::Numeral("1.5".to_string()));
    request = stellar.resume(Reply::Text("not a number".to_string()));
    assert_eq!(request, Request::Numeral("1.5".to_string()));
    request = stellar.resume(Reply::Number(number(1.5)));
    assert_eq!(request, Request::Numeral("2".to_string()));
    request = stellar.resume(Reply::Number(number(2.0)));
    let mut asked = Vec::new();
    while request != Request::Finished {
        if request != Request::Continue {
            asked.push(format!("{request:?}"));
        }
        request = stellar.resume(answer(request).unwrap());
    }
    assert_eq!(asked.len(), 1);
    assert_eq!(
        request_of("1.5 + 2"),
        Request::Arithmetic(BinaryOp::Add, number(1.5), number(2.0))
    );
}

fn request_of(expression: &str) -> Request {
    let mut stellar = Stellar::new(InterpreterProperties { mode: InterpreterMode::Script });
    let mut request = stellar.run(format!("{expression};"));
    loop {
        match request {
            Request::Numeral(_) | Request::Continue => {
                request = stellar.resume(answer(request).unwrap());
            }
            other => return other,
        }
    }
}

#[test]
fn an_unasked_answer_is_ignored() {
    let mut stellar = Stellar::new(InterpreterProperties { mode: InterpreterMode::Repl });
    assert_eq!(stellar.resume(Reply::Number(number(1.0))), Request::Finished);
    assert_eq!(stellar.resume(Reply::Text("x".to_string())), Request::Finished);
    assert!(stellar.take_output().is_empty());
    assert_eq!(request_of("\"a\" + 2"), Request::Text(number(2.0)));
    let mut waiting = Stellar::new(InterpreterProperties { mode: InterpreterMode::Repl });
    let mut request = waiting.run("1 + 2;".to_string());
    while let Request::Numeral(_) | Request::Continue = request {
        request = waiting.resume(answer(request).unwrap());
    }
    assert_eq!(request, Request::Arithmetic(BinaryOp::Add, number(1.0), number(2.0)));
    assert_eq!(waiting.resume(Reply::Nothing), request);
    assert_eq!(waiting.resume(Reply::Text("3".to_string())), request);
    assert_eq!(waiting.resume(Reply::Number(number(3.0))), Request::Text(number(3.0)));
    assert_eq!(waiting.resume(Reply::Number(number(3.0))), Request::Text(number(3.0)));
    assert_eq!(waiting.resume(Reply::Text("three".to_string())), Request::Finished);
    assert_eq!(waiting.take_output(), vec!["three"]);
}

#[test]
fn the_host_is_never_asked_to_divide_by_zero() {
    for source in ["1 / 0;", "1 / -0;", "0 / 0;", "5 / (3 - 3);"] {
        assert_eq!(
            repl(source),
            vec!["Runtime Error: Division by zero: cannot divide by zero"],
            "{source}"
        );
    }
}

#[test]
fn runtime_errors_as_text() {
    let error = RuntimeError { what: "'x'".to_string(), kind: ErrorKind::UndefinedVariable };
    assert_eq!(error.to_string(), "Undefined variable: 'x'");
    assert_eq!(error.report(), "Runtime Error: Undefined variable: 'x'");
    assert_eq!(error.clone(), error);
    assert_eq!(ErrorKind::OperatorNotDefined.to_string(), "Operator not defined");
    assert_eq!(ErrorKind::ZeroDivision.to_string(), "Division by zero");
    assert_eq!(ErrorKind::TypeMismatch.to_string(), "Type mismatch");
    assert_eq!(ErrorKind::UninitializedAccess.to_string(), "Uninitialized access");
    assert_eq!(ErrorKind::UndefinedVariable.to_string(), "Undefined variable");
}

#[test]
fn the_default_mode_is_interactive() {
    assert_eq!(InterpreterProperties::default().mode, InterpreterMode::Repl);
}

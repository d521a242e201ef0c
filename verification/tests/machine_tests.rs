use stellar::lang::{
    BinaryOp, Expr, Interpreter, InterpreterMode, InterpreterProperties, Literal, Number, Reply,
    Request, Stmt,
};

fn number(x: f64) -> Number {
    Number::from_bits(x.to_bits())
}

fn lit(x: f64) -> Box<Expr> {
    Box::new(Expr::Literal(Literal::Number(number(x))))
}

fn interpreter(mode: InterpreterMode) -> Interpreter {
    Interpreter::new(InterpreterProperties { mode })
}

#[test]
fn a_new_interpreter_has_finished() {
    let mut it = interpreter(InterpreterMode::Repl);
    assert_eq!(it.request(), Request::Finished);
    assert_eq!(it.step(Reply::Nothing), Request::Finished);
    assert_eq!(it.run(Reply::Nothing), Request::Finished);
    assert!(it.take_output().is_empty());
    assert_eq!(it.environment().depth(), 1);
}

#[test]
fn steps_go_on_until_the_host_is_needed() {
    let mut it = interpreter(InterpreterMode::Script);
    let sum = Stmt::Print(Box::new(Expr::Binary(lit(1.0), BinaryOp::Add, lit(2.0))));
    it.interpret(&[sum]);
    let mut steps = 0;
    let mut request = it.request();
    while request == Request::Continue {
        request = it.step(Reply::Nothing);
        steps += 1;
    }
    assert_eq!(request, Request::Arithmetic(BinaryOp::Add, number(1.0), number(2.0)));
    assert_eq!(steps, 6);
    assert_eq!(it.step(Reply::Number(number(3.0))), Request::Text(number(3.0)));
    assert_eq!(it.step(Reply::Text("3".to_string())), Request::Finished);
    assert_eq!(it.take_output(), vec!["3"]);
    assert!(it.take_output().is_empty());
}

#[test]
fn run_stops_only_for_a_request() {
    let mut it = interpreter(InterpreterMode::Script);
    let program = vec![
        Stmt::Let("x".to_string(), Some(lit(4.0))),
        Stmt::Block(vec![
            Stmt::Let("y".to_string(), Some(Box::new(Expr::Variable("x".to_string())))),
            Stmt::Expr(Box::new(Expr::Assign(
                "x".to_string(),
                Box::new(Expr::Binary(
                    Box::new(Expr::Variable("y".to_string())),
                    BinaryOp::Mul,
                    lit(2.0),
                )),
            ))),
        ]),
        Stmt::Print(Box::new(Expr::Variable("x".to_string()))),
    ];
    it.interpret(&program);
    assert_eq!(
        it.run(Reply::Nothing),
        Request::Arithmetic(BinaryOp::Mul, number(4.0), number(2.0))
    );
    assert_eq!(it.environment().depth(), 2);
    assert_eq!(it.run(Reply::Number(number(8.0))), Request::Text(number(8.0)));
    assert_eq!(it.environment().depth(), 1);
    assert_eq!(
        it.environment().get(&"x".to_string()),
        Some(Some(Literal::Number(number(8.0))))
    );
    assert_eq!(it.environment().get(&"y".to_string()), None);
    assert_eq!(it.run(Reply::Text("eight".to_string())), Request::Finished);
    assert_eq!(it.take_output(), vec!["eight"]);
}

#[test]
fn the_answer_is_taken_as_it_is() {
    let mut it = interpreter(InterpreterMode::Repl);
    it.interpret(&[Stmt::Expr(Box::new(Expr::Binary(lit(1.0), BinaryOp::Sub, lit(1.0))))]);
    assert_eq!(
        it.run(Reply::Nothing),
        Request::Arithmetic(BinaryOp::Sub, number(1.0), number(1.0))
    );
    assert_eq!(it.run(Reply::Number(number(99.0))), Request::Text(number(99.0)));
    assert_eq!(it.run(Reply::Text("ninety-nine".to_string())), Request::Finished);
    assert_eq!(it.take_output(), vec!["ninety-nine"]);
}

#[test]
fn statements_taken_up_later_run_first() {
    let mut it = interpreter(InterpreterMode::Script);
    let show = |s: &str| Stmt::Print(Box::new(Expr::Literal(Literal::String(s.to_string()))));
    it.interpret(&[show("a"), show("b")]);
    it.interpret(&[show("c")]);
    assert_eq!(it.run(Reply::Nothing), Request::Finished);
    assert_eq!(it.take_output(), vec!["c", "a", "b"]);
}

#[test]
fn lines_can_be_added_to_the_output() {
    let mut it = interpreter(InterpreterMode::Script);
    it.print("first".to_string());
    it.interpret(&[Stmt::Print(Box::new(Expr::Literal(Literal::Bool(true))))]);
    assert_eq!(it.run(Reply::Nothing), Request::Finished);
    assert_eq!(it.take_output(), vec!["first", "true"]);
}

#[test]
fn statements_are_copied_whole() {
    let original = Stmt::If(
        lit(1.0),
        Box::new(Stmt::Block(vec![
            Stmt::Let("x".to_string(), None),
            Stmt::Print(Box::new(Expr::Grouping(lit(2.0)))),
        ])),
        Some(Box::new(Stmt::Expr(Box::new(Expr::Variable("y".to_string()))))),
    );
    assert_eq!(original.clone(), original);
    assert_eq!(Stmt::Block(vec![]).clone(), Stmt::Block(vec![]));
}

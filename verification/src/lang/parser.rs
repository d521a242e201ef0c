//! The parser: from tokens to statements, by recursive descent.
use vstd::prelude::*;
use crate::lang::diagnostic::{Diagnostic, DiagnosticView, diagnostic_views};
use crate::lang::expr::{BinaryOp, Expr, ExprView, Literal, LiteralView, UnaryOp};
use crate::lang::grammar::{
    Parsed,
    assignment,
    at_end,
    atom,
    binary,
    binary_rest,
    block,
    branch,
    declaration,
    expected,
    expression,
    expression_statement,
    if_statement,
    kind_at,
    operand,
    primary,
    print_statement,
    program,
    resume_from,
    statement,
    synchronize,
    syntax_error,
    tier_op,
    tier_rank,
    token_at,
    unary,
    value_at,
    variable_declaration,
};
use crate::lang::number::Number;
use crate::lang::stmt::{Stmt, StmtView, lemma_block_view, stmt_views};
use crate::lang::text::chars_of;
use crate::lang::token::{Token, TokenType, TokenView, token_views};

verus! {

/// A parser over one token sequence.
pub struct Parser<'a> {
    tokens: &'a Vec<Token>,
    numbers: &'a Vec<Number>,
    index: usize,
    diagnostics: Vec<Diagnostic>,
}

/// The mathematical value of a [`Parser`]: its input, where it stands in
/// it, and what it has reported so far.
pub struct ParserView {
    pub tokens: Seq<TokenView>,
    pub numbers: Seq<Number>,
    pub index: int,
    pub diagnostics: Seq<DiagnosticView>,
}

impl ParserView {
    /// The position lies within the input.
    pub open spec fn wf(self) -> bool {
        0 <= self.index <= self.tokens.len()
    }

    /// `self` is `before` with the position moved forward within the input.
    pub open spec fn follows(self, before: ParserView) -> bool {
        &&& self == (ParserView { index: self.index, ..before })
        &&& before.index <= self.index <= before.tokens.len()
    }
}

impl<'a> View for Parser<'a> {
    type V = ParserView;

    closed spec fn view(&self) -> ParserView {
        ParserView {
            tokens: token_views(self.tokens@),
            numbers: self.numbers@,
            index: self.index as int,
            diagnostics: diagnostic_views(self.diagnostics@),
        }
    }
}

/// The outcome of an executable parse of an expression.
pub open spec fn expr_parsed(r: Result<Expr, Diagnostic>, next: int) -> Parsed<ExprView> {
    Parsed {
        result: match r {
            Ok(e) => Ok(e@),
            Err(d) => Err(d@),
        },
        next,
    }
}

/// The outcome of an executable parse of a statement.
pub open spec fn stmt_parsed(r: Result<Stmt, Diagnostic>, next: int) -> Parsed<StmtView> {
    Parsed {
        result: match r {
            Ok(s) => Ok(s@),
            Err(d) => Err(d@),
        },
        next,
    }
}

/// The outcome of an executable parse of a list of statements.
pub open spec fn stmts_parsed(r: Result<Vec<Stmt>, Diagnostic>, next: int) -> Parsed<Seq<StmtView>> {
    Parsed {
        result: match r {
            Ok(ss) => Ok(stmt_views(ss@)),
            Err(d) => Err(d@),
        },
        next,
    }
}

/// The binary operator that a token of kind `ty` writes on `level`.
fn tier_operator(level: u8, ty: TokenType) -> (r: Option<BinaryOp>)
    ensures
        r == tier_op(level as nat, ty),
{
    let of_level = match level {
        0 => ty == TokenType::Ne || ty == TokenType::EqEq,
        1 => ty == TokenType::Gt || ty == TokenType::Gte || ty == TokenType::Lt || ty
            == TokenType::Lte,
        2 => ty == TokenType::Plus || ty == TokenType::Minus,
        3 => ty == TokenType::Star || ty == TokenType::Slash,
        _ => false,
    };
    if of_level {
        Some(BinaryOp::from(ty))
    } else {
        None
    }
}

/// The expression that is the character `c`.
fn char_literal(c: char) -> (r: Expr)
    ensures
        r@ == ExprView::Literal(LiteralView::Char(c)),
{
    Expr::Literal(Literal::Char(c))
}

/// The expression that `token` writes by itself, if it writes one.
fn primary_of(token: &Token, value: Number) -> (r: Option<Expr>)
    ensures
        match r {
            Some(e) => primary(token@, value) == Some(e@),
            None => primary(token@, value) is None,
        },
{
    match token.ty {
        TokenType::Null => Some(Expr::Literal(Literal::Null)),
        TokenType::Number => Some(Expr::Literal(Literal::Number(value))),
        TokenType::String => Some(Expr::Literal(Literal::String(token.lexeme.clone()))),
        TokenType::True => Some(Expr::Literal(Literal::Bool(true))),
        TokenType::False => Some(Expr::Literal(Literal::Bool(false))),
        TokenType::Char => {
            let chars = chars_of(token.lexeme.as_str());
            if chars.len() == 1 {
                Some(char_literal(chars[0]))
            } else {
                None
            }
        },
        TokenType::Ident => Some(Expr::Variable(token.lexeme.clone())),
        _ => None,
    }
}

impl<'a> Parser<'a> {
    /// A parser at the start of `tokens`. `numbers[i]` is the value of the
    /// number token `tokens[i]`.
    pub fn new(tokens: &'a Vec<Token>, numbers: &'a Vec<Number>) -> (r: Self)
        ensures
            r@ == (ParserView {
                tokens: token_views(tokens@),
                numbers: numbers@,
                index: 0,
                diagnostics: Seq::empty(),
            }),
    {
        let r = Self { tokens, numbers, index: 0, diagnostics: Vec::new() };
        assert(r@.diagnostics =~= Seq::empty());
        r
    }

    /// Parses the rest of the input. Returns the statements that parsed;
    /// each declaration that did not is reported in the diagnostics.
    pub fn parse(&mut self) -> (statements: Vec<Stmt>)
        requires
            old(self)@.wf(),
        ensures
            final(self)@.wf(),
            final(self)@.tokens == old(self)@.tokens,
            final(self)@.numbers == old(self)@.numbers,
            stmt_views(statements@) == program(
                old(self)@.tokens,
                old(self)@.numbers,
                old(self)@.index,
            ).statements,
            final(self)@.diagnostics == old(self)@.diagnostics + program(
                old(self)@.tokens,
                old(self)@.numbers,
                old(self)@.index,
            ).diagnostics,
    {
        reveal_with_fuel(program, 1);
        let mut statements: Vec<Stmt> = Vec::new();
        let ghost goal = program(old(self)@.tokens, old(self)@.numbers, old(self)@.index);
        assert(stmt_views(statements@) + goal.statements =~= goal.statements);
        assert(self@.diagnostics + goal.diagnostics =~= old(self)@.diagnostics + goal.diagnostics);
        while !self.is_at_end()
            invariant
                self@.wf(),
                self@.tokens == old(self)@.tokens,
                self@.numbers == old(self)@.numbers,
                goal == program(old(self)@.tokens, old(self)@.numbers, old(self)@.index),
                stmt_views(statements@) + program(
                    self@.tokens,
                    self@.numbers,
                    self@.index,
                ).statements == goal.statements,
                self@.diagnostics + program(self@.tokens, self@.numbers, self@.index).diagnostics
                    == old(self)@.diagnostics + goal.diagnostics,
            decreases self@.tokens.len() - self@.index,
        {
            reveal_with_fuel(program, 1);
            let ghost before = self@;
            let ghost done = stmt_views(statements@);
            match self.declaration() {
                Ok(s) => {
                    statements.push(s);
                    proof {
                        let rest = program(self@.tokens, self@.numbers, self@.index);
                        assert(stmt_views(statements@) =~= done.push(s@));
                        assert(done.push(s@) + rest.statements =~= done + (seq![s@]
                            + rest.statements));
                    }
                },
                Err(d) => {
                    self.report(d);
                    self.synchronize();
                    proof {
                        let rest = program(self@.tokens, self@.numbers, self@.index);
                        assert(before.diagnostics.push(d@) + rest.diagnostics
                            =~= before.diagnostics + (seq![d@] + rest.diagnostics));
                    }
                },
            }
        }
        proof {
            let rest = program(self@.tokens, self@.numbers, self@.index);
            assert(stmt_views(statements@) + rest.statements =~= stmt_views(statements@));
            assert(self@.diagnostics + rest.diagnostics =~= self@.diagnostics);
        }
        statements
    }

    /// The diagnostics reported so far.
    pub fn diagnostics(&self) -> (r: &Vec<Diagnostic>)
        ensures
            diagnostic_views(r@) == self@.diagnostics,
    {
        &self.diagnostics
    }

    /// Ends the parser and hands over the diagnostics.
    pub fn into_diagnostics(self) -> (r: Vec<Diagnostic>)
        ensures
            diagnostic_views(r@) == self@.diagnostics,
    {
        self.diagnostics
    }

    /// Adds `d` to the diagnostics.
    fn report(&mut self, d: Diagnostic)
        ensures
            final(self)@ == (ParserView {
                diagnostics: old(self)@.diagnostics.push(d@),
                ..old(self)@
            }),
    {
        self.diagnostics.push(d);
        assert(self@.diagnostics =~= old(self)@.diagnostics.push(d@));
    }

    /// Moves past the current token, unless the input ends there.
    fn advance(&mut self)
        requires
            old(self)@.wf(),
        ensures
            final(self)@ == (ParserView {
                index: if at_end(old(self)@.tokens, old(self)@.index) {
                    old(self)@.index
                } else {
                    old(self)@.index + 1
                },
                ..old(self)@
            }),
            final(self)@.wf(),
    {
        if self.index < self.tokens.len() && self.kind() != TokenType::Eof {
            self.index += 1;
        }
    }

    /// The kind of the current token.
    fn kind(&self) -> (r: TokenType)
        ensures
            r == kind_at(self@.tokens, self@.index),
    {
        if self.index < self.tokens.len() {
            self.tokens[self.index].ty
        } else {
            TokenType::Eof
        }
    }

    /// The current token.
    fn peek(&self) -> (r: Token)
        ensures
            r@ == token_at(self@.tokens, self@.index),
    {
        if self.index < self.tokens.len() {
            self.tokens[self.index].clone()
        } else {
            Token::new(TokenType::Eof, String::new(), 0)
        }
    }

    /// The token before the current one.
    fn previous(&self) -> (r: Token)
        requires
            1 <= self@.index <= self@.tokens.len(),
        ensures
            r@ == self@.tokens[self@.index - 1],
    {
        self.tokens[self.index - 1].clone()
    }

    /// The value supplied for the current token.
    fn value(&self) -> (r: Number)
        ensures
            r == value_at(self@.numbers, self@.index),
    {
        if self.index < self.numbers.len() {
            self.numbers[self.index]
        } else {
            Number::from_bits(0)
        }
    }

    /// expression := assignment
    fn expression(&mut self) -> (r: Result<Expr, Diagnostic>)
        requires
            old(self)@.wf(),
        ensures
            final(self)@.follows(old(self)@),
            r is Ok ==> final(self)@.index > old(self)@.index,
            expr_parsed(r, final(self)@.index) == expression(
                old(self)@.tokens,
                old(self)@.numbers,
                old(self)@.index,
            ),
        decreases old(self)@.tokens.len() - old(self)@.index, 15nat,
    {
        reveal_with_fuel(expression, 1);
        reveal_with_fuel(assignment, 1);
        self.assignment()
    }

    /// declaration := "let" variable_declaration | statement
    fn declaration(&mut self) -> (r: Result<Stmt, Diagnostic>)
        requires
            old(self)@.wf(),
        ensures
            final(self)@.follows(old(self)@),
            r is Ok ==> final(self)@.index > old(self)@.index,
            stmt_parsed(r, final(self)@.index) == declaration(
                old(self)@.tokens,
                old(self)@.numbers,
                old(self)@.index,
            ),
        decreases old(self)@.tokens.len() - old(self)@.index, 3nat,
    {
        reveal_with_fuel(declaration, 1);
        reveal_with_fuel(statement, 1);
        if self.matches(vec![TokenType::Let]) {
            return self.variable_declaration();
        }
        self.statement()
    }

    /// statement := "if" if_statement | PRINT print_statement | "{" block
    ///            | expression_statement
    fn statement(&mut self) -> (r: Result<Stmt, Diagnostic>)
        requires
            old(self)@.wf(),
        ensures
            final(self)@.follows(old(self)@),
            r is Ok ==> final(self)@.index > old(self)@.index,
            stmt_parsed(r, final(self)@.index) == statement(
                old(self)@.tokens,
                old(self)@.numbers,
                old(self)@.index,
            ),
        decreases old(self)@.tokens.len() - old(self)@.index, 2nat,
    {
        reveal_with_fuel(statement, 1);
        reveal_with_fuel(if_statement, 1);
        reveal_with_fuel(block, 1);
        match self.kind() {
            TokenType::If => {
                self.advance();
                self.if_statement()
            },
            TokenType::Print => {
                self.advance();
                self.print_statement()
            },
            TokenType::LCurly => {
                self.advance();
                match self.block() {
                    Ok(body) => {
                        proof {
                            lemma_block_view(body);
                        }
                        Ok(Stmt::Block(body))
                    },
                    Err(d) => Err(d),
                }
            },
            _ => self.expression_statement(),
        }
    }

    /// expression_statement := expression ";"
    fn expression_statement(&mut self) -> (r: Result<Stmt, Diagnostic>)
        requires
            old(self)@.wf(),
        ensures
            final(self)@.follows(old(self)@),
            r is Ok ==> final(self)@.index > old(self)@.index,
            stmt_parsed(r, final(self)@.index) == expression_statement(
                old(self)@.tokens,
                old(self)@.numbers,
                old(self)@.index,
            ),
    {
        let expr = match self.expression() {
            Ok(e) => e,
            Err(d) => return Err(d),
        };
        match self.consume(TokenType::Semicolon, "Expected ';' after expression") {
            Ok(_) => Ok(Stmt::Expr(Box::new(expr))),
            Err(d) => Err(d),
        }
    }

    /// The branch of a conditional: "{" statement "}".
    fn branch(&mut self, open_msg: &str) -> (r: Result<Stmt, Diagnostic>)
        requires
            old(self)@.wf(),
        ensures
            final(self)@.follows(old(self)@),
            r is Ok ==> final(self)@.index > old(self)@.index,
            stmt_parsed(r, final(self)@.index) == branch(
                old(self)@.tokens,
                old(self)@.numbers,
                old(self)@.index,
                open_msg@,
            ),
        decreases old(self)@.tokens.len() - old(self)@.index, 0nat,
    {
        reveal_with_fuel(branch, 1);
        reveal_with_fuel(statement, 1);
        match self.consume(TokenType::LCurly, open_msg) {
            Ok(_) => {},
            Err(d) => return Err(d),
        }
        let body = match self.statement() {
            Ok(s) => s,
            Err(d) => return Err(d),
        };
        match self.consume(TokenType::RCurly, "Expected '}' after statement") {
            Ok(_) => Ok(body),
            Err(d) => Err(d),
        }
    }

    /// if_statement := "(" expression ")" "{" statement "}"
    ///                 ("else" "{" statement "}")?, after "if".
    fn if_statement(&mut self) -> (r: Result<Stmt, Diagnostic>)
        requires
            old(self)@.wf(),
        ensures
            final(self)@.follows(old(self)@),
            r is Ok ==> final(self)@.index > old(self)@.index,
            stmt_parsed(r, final(self)@.index) == if_statement(
                old(self)@.tokens,
                old(self)@.numbers,
                old(self)@.index,
            ),
        decreases old(self)@.tokens.len() - old(self)@.index, 1nat,
    {
        reveal_with_fuel(if_statement, 1);
        reveal_with_fuel(branch, 1);
        match self.consume(TokenType::LParen, "Expected '(' before expression") {
            Ok(_) => {},
            Err(d) => return Err(d),
        }
        let condition = match self.expression() {
            Ok(e) => e,
            Err(d) => return Err(d),
        };
        match self.consume(TokenType::RParen, "Expected ')' after expression") {
            Ok(_) => {},
            Err(d) => return Err(d),
        }
        let main_branch = match self.branch("Expected '{' after condition") {
            Ok(s) => s,
            Err(d) => return Err(d),
        };
        let mut else_branch: Option<Box<Stmt>> = None;
        if self.matches(vec![TokenType::Else]) {
            match self.branch("Expected '{' after else branch") {
                Ok(s) => {
                    else_branch = Some(Box::new(s));
                },
                Err(d) => return Err(d),
            }
        }
        Ok(Stmt::If(Box::new(condition), Box::new(main_branch), else_branch))
    }

    /// variable_declaration := IDENT ("=" expression)? ";", after "let".
    fn variable_declaration(&mut self) -> (r: Result<Stmt, Diagnostic>)
        requires
            old(self)@.wf(),
        ensures
            final(self)@.follows(old(self)@),
            r is Ok ==> final(self)@.index > old(self)@.index,
            stmt_parsed(r, final(self)@.index) == variable_declaration(
                old(self)@.tokens,
                old(self)@.numbers,
                old(self)@.index,
            ),
    {
        let name = match self.consume(TokenType::Ident, "Expected identifier") {
            Ok(token) => token,
            Err(d) => return Err(d),
        };
        let mut initializer: Option<Box<Expr>> = None;
        if self.matches(vec![TokenType::Eq]) {
            match self.expression() {
                Ok(e) => {
                    initializer = Some(Box::new(e));
                },
                Err(d) => return Err(d),
            }
        }
        match self.consume(TokenType::Semicolon, "Expected ';' after declaration") {
            Ok(_) => Ok(Stmt::Let(name.lexeme, initializer)),
            Err(d) => Err(d),
        }
    }

    /// The statements of a block up to its closing brace, after "{".
    fn block(&mut self) -> (r: Result<Vec<Stmt>, Diagnostic>)
        requires
            old(self)@.wf(),
        ensures
            final(self)@.follows(old(self)@),
            r is Ok ==> final(self)@.index > old(self)@.index,
            stmts_parsed(r, final(self)@.index) == block(
                old(self)@.tokens,
                old(self)@.numbers,
                old(self)@.index,
            ),
        decreases old(self)@.tokens.len() - old(self)@.index, 4nat,
    {
        reveal_with_fuel(block, 1);
        reveal_with_fuel(declaration, 1);
        let mut statements: Vec<Stmt> = Vec::new();
        let ghost goal = block(old(self)@.tokens, old(self)@.numbers, old(self)@.index);
        while !self.check(TokenType::RCurly) && !self.is_at_end()
            invariant
                self@.follows(old(self)@),
                goal == block(old(self)@.tokens, old(self)@.numbers, old(self)@.index),
                match block(self@.tokens, self@.numbers, self@.index).result {
                    Ok(ss) => goal.result == Ok::<Seq<StmtView>, DiagnosticView>(
                        stmt_views(statements@) + ss,
                    ),
                    Err(d) => goal.result == Err::<Seq<StmtView>, DiagnosticView>(d),
                },
                goal.next == block(self@.tokens, self@.numbers, self@.index).next,
            decreases self@.tokens.len() - self@.index,
        {
            reveal_with_fuel(block, 1);
            reveal_with_fuel(declaration, 1);
            let ghost done = stmt_views(statements@);
            match self.declaration() {
                Ok(s) => {
                    statements.push(s);
                    proof {
                        assert(stmt_views(statements@) =~= done.push(s@));
                        match block(self@.tokens, self@.numbers, self@.index).result {
                            Ok(ss) => {
                                assert(done.push(s@) + ss =~= done + (seq![s@] + ss));
                            },
                            Err(_) => {},
                        }
                    }
                },
                Err(d) => return Err(d),
            }
        }
        match self.consume(TokenType::RCurly, "Expected '}' after block") {
            Ok(_) => {
                assert(stmt_views(statements@) + Seq::<StmtView>::empty() =~= stmt_views(
                    statements@,
                ));
                Ok(statements)
            },
            Err(d) => Err(d),
        }
    }

    /// print_statement := expression ";", after the print keyword.
    fn print_statement(&mut self) -> (r: Result<Stmt, Diagnostic>)
        requires
            old(self)@.wf(),
        ensures
            final(self)@.follows(old(self)@),
            r is Ok ==> final(self)@.index > old(self)@.index,
            stmt_parsed(r, final(self)@.index) == print_statement(
                old(self)@.tokens,
                old(self)@.numbers,
                old(self)@.index,
            ),
    {
        let expr = match self.expression() {
            Ok(e) => e,
            Err(d) => return Err(d),
        };
        match self.consume(TokenType::Semicolon, "Expected ';' after expression") {
            Ok(_) => Ok(Stmt::Print(Box::new(expr))),
            Err(d) => Err(d),
        }
    }

    /// assignment := equality ("=" assignment)?
    fn assignment(&mut self) -> (r: Result<Expr, Diagnostic>)
        requires
            old(self)@.wf(),
        ensures
            final(self)@.follows(old(self)@),
            r is Ok ==> final(self)@.index > old(self)@.index,
            expr_parsed(r, final(self)@.index) == assignment(
                old(self)@.tokens,
                old(self)@.numbers,
                old(self)@.index,
            ),
        decreases old(self)@.tokens.len() - old(self)@.index, 14nat,
    {
        reveal_with_fuel(assignment, 1);
        reveal_with_fuel(binary, 1);
        let expr = match self.equality() {
            Ok(e) => e,
            Err(d) => return Err(d),
        };
        if self.matches(vec![TokenType::Eq]) {
            let equals_op = self.previous();
            let value = match self.assignment() {
                Ok(v) => v,
                Err(d) => return Err(d),
            };
            return match expr {
                Expr::Variable(name) => Ok(Expr::Assign(name, Box::new(value))),
                _ => Err(self.error(&equals_op, "lvalue required")),
            };
        }
        Ok(expr)
    }

    /// equality := comparison (("!=" | "==") comparison)*
    fn equality(&mut self) -> (r: Result<Expr, Diagnostic>)
        requires
            old(self)@.wf(),
        ensures
            final(self)@.follows(old(self)@),
            r is Ok ==> final(self)@.index > old(self)@.index,
            expr_parsed(r, final(self)@.index) == binary(
                old(self)@.tokens,
                old(self)@.numbers,
                0,
                old(self)@.index,
            ),
        decreases old(self)@.tokens.len() - old(self)@.index, 13nat,
    {
        self.binary(0)
    }

    /// comparison := term ((">" | ">=" | "<" | "<=") term)*
    fn comparison(&mut self) -> (r: Result<Expr, Diagnostic>)
        requires
            old(self)@.wf(),
        ensures
            final(self)@.follows(old(self)@),
            r is Ok ==> final(self)@.index > old(self)@.index,
            expr_parsed(r, final(self)@.index) == binary(
                old(self)@.tokens,
                old(self)@.numbers,
                1,
                old(self)@.index,
            ),
        decreases old(self)@.tokens.len() - old(self)@.index, 10nat,
    {
        self.binary(1)
    }

    /// term := factor (("+" | "-") factor)*
    fn term(&mut self) -> (r: Result<Expr, Diagnostic>)
        requires
            old(self)@.wf(),
        ensures
            final(self)@.follows(old(self)@),
            r is Ok ==> final(self)@.index > old(self)@.index,
            expr_parsed(r, final(self)@.index) == binary(
                old(self)@.tokens,
                old(self)@.numbers,
                2,
                old(self)@.index,
            ),
        decreases old(self)@.tokens.len() - old(self)@.index, 7nat,
    {
        self.binary(2)
    }

    /// factor := unary (("*" | "/") unary)*
    fn factor(&mut self) -> (r: Result<Expr, Diagnostic>)
        requires
            old(self)@.wf(),
        ensures
            final(self)@.follows(old(self)@),
            r is Ok ==> final(self)@.index > old(self)@.index,
            expr_parsed(r, final(self)@.index) == binary(
                old(self)@.tokens,
                old(self)@.numbers,
                3,
                old(self)@.index,
            ),
        decreases old(self)@.tokens.len() - old(self)@.index, 4nat,
    {
        self.binary(3)
    }

    /// An operand of the operators of `level`.
    fn operand(&mut self, level: u8) -> (r: Result<Expr, Diagnostic>)
        requires
            old(self)@.wf(),
            level <= 3,
        ensures
            final(self)@.follows(old(self)@),
            r is Ok ==> final(self)@.index > old(self)@.index,
            expr_parsed(r, final(self)@.index) == operand(
                old(self)@.tokens,
                old(self)@.numbers,
                level as nat,
                old(self)@.index,
            ),
        decreases old(self)@.tokens.len() - old(self)@.index, tier_rank(level as nat) - 1,
    {
        reveal_with_fuel(operand, 1);
        reveal_with_fuel(binary, 1);
        reveal_with_fuel(unary, 1);
        match level {
            0 => self.comparison(),
            1 => self.term(),
            2 => self.factor(),
            _ => self.unary(),
        }
    }

    /// A chain of operators of one precedence level, grouped to the left.
    fn binary(&mut self, level: u8) -> (r: Result<Expr, Diagnostic>)
        requires
            old(self)@.wf(),
            level <= 3,
        ensures
            final(self)@.follows(old(self)@),
            r is Ok ==> final(self)@.index > old(self)@.index,
            expr_parsed(r, final(self)@.index) == binary(
                old(self)@.tokens,
                old(self)@.numbers,
                level as nat,
                old(self)@.index,
            ),
        decreases old(self)@.tokens.len() - old(self)@.index, tier_rank(level as nat),
    {
        reveal_with_fuel(binary, 1);
        reveal_with_fuel(binary_rest, 1);
        reveal_with_fuel(operand, 1);
        let mut expr = match self.operand(level) {
            Ok(e) => e,
            Err(d) => return Err(d),
        };
        let ghost goal = binary(
            old(self)@.tokens,
            old(self)@.numbers,
            level as nat,
            old(self)@.index,
        );
        loop
            invariant
                level <= 3,
                self@.follows(old(self)@),
                self@.index > old(self)@.index,
                goal == binary(
                    old(self)@.tokens,
                    old(self)@.numbers,
                    level as nat,
                    old(self)@.index,
                ),
                binary_rest(self@.tokens, self@.numbers, level as nat, self@.index, expr@) == goal,
            decreases self@.tokens.len() - self@.index,
        {
            reveal_with_fuel(binary_rest, 1);
            reveal_with_fuel(operand, 1);
            let operator = match tier_operator(level, self.kind()) {
                Some(op) => op,
                None => return Ok(expr),
            };
            self.advance();
            let rhs = match self.operand(level) {
                Ok(e) => e,
                Err(d) => return Err(d),
            };
            expr = Expr::Binary(Box::new(expr), operator, Box::new(rhs));
        }
    }

    /// unary := ("!" | "-") unary | atom
    fn unary(&mut self) -> (r: Result<Expr, Diagnostic>)
        requires
            old(self)@.wf(),
        ensures
            final(self)@.follows(old(self)@),
            r is Ok ==> final(self)@.index > old(self)@.index,
            expr_parsed(r, final(self)@.index) == unary(
                old(self)@.tokens,
                old(self)@.numbers,
                old(self)@.index,
            ),
        decreases old(self)@.tokens.len() - old(self)@.index, 1nat,
    {
        reveal_with_fuel(unary, 1);
        reveal_with_fuel(atom, 1);
        if self.matches(vec![TokenType::Bang, TokenType::Minus]) {
            let operator = UnaryOp::from(self.previous().ty);
            return match self.unary() {
                Ok(rhs) => Ok(Expr::Unary(operator, Box::new(rhs))),
                Err(d) => Err(d),
            };
        }
        self.atom()
    }

    /// atom := "null" | NUMBER | STRING | "true" | "false" | CHAR | IDENT
    ///       | "(" expression ")"
    fn atom(&mut self) -> (r: Result<Expr, Diagnostic>)
        requires
            old(self)@.wf(),
        ensures
            final(self)@.follows(old(self)@),
            r is Ok ==> final(self)@.index > old(self)@.index,
            expr_parsed(r, final(self)@.index) == atom(
                old(self)@.tokens,
                old(self)@.numbers,
                old(self)@.index,
            ),
        decreases old(self)@.tokens.len() - old(self)@.index, 0nat,
    {
        reveal_with_fuel(atom, 1);
        reveal_with_fuel(expression, 1);
        let token = self.peek();
        let ty = token.ty;
        match primary_of(&token, self.value()) {
            Some(e) => {
                self.advance();
                return Ok(e);
            },
            None => {},
        }
        if ty == TokenType::LParen {
            self.advance();
            let expr = match self.expression() {
                Ok(e) => e,
                Err(d) => return Err(d),
            };
            match self.consume(TokenType::RParen, "Expected ')' after expression") {
                Ok(_) => Ok(Expr::Grouping(Box::new(expr))),
                Err(d) => Err(d),
            }
        } else if ty == TokenType::Char {
            Err(self.error(&token, "Malformed character literal"))
        } else {
            Err(self.error(&token, "Expected expression"))
        }
    }

    /// Discards the current token, and then tokens up to the next statement
    /// boundary.
    fn synchronize(&mut self)
        requires
            old(self)@.wf(),
        ensures
            final(self)@.follows(old(self)@),
            final(self)@.index == synchronize(old(self)@.tokens, old(self)@.index),
            !at_end(old(self)@.tokens, old(self)@.index) ==> final(self)@.index > old(self)@.index,
    {
        reveal_with_fuel(resume_from, 1);
        if self.is_at_end() {
            return ;
        }
        self.advance();
        while !self.is_at_end()
            invariant
                self@.follows(old(self)@),
                self@.index > old(self)@.index,
                !at_end(old(self)@.tokens, old(self)@.index),
                resume_from(self@.tokens, self@.index) == resume_from(
                    old(self)@.tokens,
                    old(self)@.index + 1,
                ),
            decreases self@.tokens.len() - self@.index,
        {
            reveal_with_fuel(resume_from, 1);
            if self.previous().ty == TokenType::Semicolon {
                return ;
            }
            match self.kind() {
                TokenType::Struct
                | TokenType::Fun
                | TokenType::Let
                | TokenType::For
                | TokenType::If
                | TokenType::While
                | TokenType::Return => {
                    return ;
                },
                _ => (),
            }
            self.advance();
        }
    }

    /// Moves past the current token if it is of kind `ty`; reports `msg`
    /// about it if it is not.
    fn consume(&mut self, ty: TokenType, msg: &str) -> (r: Result<Token, Diagnostic>)
        requires
            old(self)@.wf(),
            ty != TokenType::Eof,
        ensures
            final(self)@.follows(old(self)@),
            match r {
                Ok(token) => kind_at(old(self)@.tokens, old(self)@.index) == ty && token@
                    == token_at(old(self)@.tokens, old(self)@.index) && final(self)@.index == old(
                    self,
                )@.index + 1,
                Err(d) => kind_at(old(self)@.tokens, old(self)@.index) != ty && d@ == expected(
                    token_at(old(self)@.tokens, old(self)@.index),
                    msg@,
                ) && final(self)@.index == old(self)@.index,
            },
    {
        if self.check(ty) {
            self.advance();
            return Ok(self.previous());
        }
        let token = self.peek();
        let mut found = String::from_str(msg);
        found.append(", found '");
        found.append(token.lexeme.as_str());
        found.append("'");
        Err(self.error(&token, found.as_str()))
    }

    /// The diagnostic that says `msg` about `token`.
    fn error(&self, token: &Token, msg: &str) -> (r: Diagnostic)
        ensures
            r@ == syntax_error(token@, msg@),
    {
        let mut message = String::from_str("at '");
        message.append(token.lexeme.as_str());
        message.append("', ");
        message.append(msg);
        Diagnostic { line: token.line, message }
    }

    /// Moves past the current token if its kind is one of `types`.
    fn matches(&mut self, types: Vec<TokenType>) -> (r: bool)
        requires
            old(self)@.wf(),
        ensures
            final(self)@.follows(old(self)@),
            r == (!at_end(old(self)@.tokens, old(self)@.index) && types@.contains(
                kind_at(old(self)@.tokens, old(self)@.index),
            )),
            final(self)@.index == if r {
                old(self)@.index + 1
            } else {
                old(self)@.index
            },
    {
        let mut i: usize = 0;
        while i < types.len()
            invariant
                self@ == old(self)@,
                self@.wf(),
                i <= types.len(),
                forall|k: int|
                    0 <= k < i ==> !(!at_end(self@.tokens, self@.index) && types@[k] == kind_at(
                        self@.tokens,
                        self@.index,
                    )),
            decreases types.len() - i,
        {
            if self.check(types[i]) {
                self.advance();
                return true;
            }
            i += 1;
        }
        false
    }

    /// Whether the current token is of kind `ty` and does not end the input.
    fn check(&self, ty: TokenType) -> (r: bool)
        ensures
            r == (!at_end(self@.tokens, self@.index) && kind_at(self@.tokens, self@.index) == ty),
    {
        if self.is_at_end() {
            return false;
        }
        self.kind() == ty
    }

    /// Whether the input ends at the current token.
    fn is_at_end(&self) -> (r: bool)
        ensures
            r == at_end(self@.tokens, self@.index),
    {
        self.kind() == TokenType::Eof
    }
}

} // verus!

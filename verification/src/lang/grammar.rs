//! The grammar: what a sequence of tokens parses to.
use vstd::prelude::*;
use crate::lang::diagnostic::DiagnosticView;
use crate::lang::expr::{BinaryOp, ExprView, LiteralView, binary_op, unary_op};
use crate::lang::number::Number;
use crate::lang::stmt::StmtView;
use crate::lang::token::{TokenType, TokenView};

verus! {


/// The outcome of parsing one construct: what was parsed, or what is wrong,
/// and the position reached.
pub struct Parsed<T> {
    pub result: Result<T, DiagnosticView>,
    pub next: int,
}

/// The kind of the token at `pos`; past the last token, end of input.
pub open spec fn kind_at(tokens: Seq<TokenView>, pos: int) -> TokenType {
    if 0 <= pos < tokens.len() {
        tokens[pos].ty
    } else {
        TokenType::Eof
    }
}

/// The token at `pos`; past the last token, an end-of-input token.
pub open spec fn token_at(tokens: Seq<TokenView>, pos: int) -> TokenView {
    if 0 <= pos < tokens.len() {
        tokens[pos]
    } else {
        TokenView { ty: TokenType::Eof, lexeme: Seq::empty(), line: 0 }
    }
}

/// Whether the input ends at `pos`.
pub open spec fn at_end(tokens: Seq<TokenView>, pos: int) -> bool {
    kind_at(tokens, pos) == TokenType::Eof
}

/// The value supplied for the number token at `pos`; zero if none was.
pub open spec fn value_at(numbers: Seq<Number>, pos: int) -> Number {
    if 0 <= pos < numbers.len() {
        numbers[pos]
    } else {
        Number { bits: 0 }
    }
}

/// The diagnostic that says `msg` about `token`.
pub open spec fn syntax_error(token: TokenView, msg: Seq<char>) -> DiagnosticView {
    DiagnosticView { line: token.line, message: "at '"@ + token.lexeme + "', "@ + msg }
}

/// The diagnostic that says `msg` where `token` was found instead.
pub open spec fn expected(token: TokenView, msg: Seq<char>) -> DiagnosticView {
    syntax_error(token, msg + ", found '"@ + token.lexeme + "'"@)
}

/// A failure at `pos`.
pub open spec fn fail<T>(error: DiagnosticView, pos: int) -> Parsed<T> {
    Parsed { result: Err(error), next: pos }
}

/// The binary operator that a token of kind `ty` writes on the precedence
/// level `level`: 0 for equality, 1 for comparison, 2 for terms, 3 for
/// factors.
pub open spec fn tier_op(level: nat, ty: TokenType) -> Option<BinaryOp> {
    if level == 0 && (ty == TokenType::Ne || ty == TokenType::EqEq) {
        binary_op(ty)
    } else if level == 1 && (ty == TokenType::Gt || ty == TokenType::Gte || ty == TokenType::Lt
        || ty == TokenType::Lte) {
        binary_op(ty)
    } else if level == 2 && (ty == TokenType::Plus || ty == TokenType::Minus) {
        binary_op(ty)
    } else if level == 3 && (ty == TokenType::Star || ty == TokenType::Slash) {
        binary_op(ty)
    } else {
        None
    }
}

/// The rank of a precedence level in the order of descent.
pub open spec fn tier_rank(level: nat) -> nat {
    if level >= 3 {
        3
    } else {
        (12 - 3 * level) as nat
    }
}

/// The expression that a single token writes, if it writes one: a literal
/// or a variable. `value` is the value supplied for a number token.
pub open spec fn primary(token: TokenView, value: Number) -> Option<ExprView> {
    match token.ty {
        TokenType::Null => Some(ExprView::Literal(LiteralView::Null)),
        TokenType::Number => Some(ExprView::Literal(LiteralView::Number(value))),
        TokenType::String => Some(ExprView::Literal(LiteralView::String(token.lexeme))),
        TokenType::True => Some(ExprView::Literal(LiteralView::Bool(true))),
        TokenType::False => Some(ExprView::Literal(LiteralView::Bool(false))),
        TokenType::Char => if token.lexeme.len() == 1 {
            Some(ExprView::Literal(LiteralView::Char(token.lexeme[0])))
        } else {
            None
        },
        TokenType::Ident => Some(ExprView::Variable(token.lexeme)),
        _ => None,
    }
}

/// atom := "null" | NUMBER | STRING | "true" | "false" | CHAR | IDENT
///       | "(" expression ")"
#[verifier::opaque]
pub open spec fn atom(tokens: Seq<TokenView>, numbers: Seq<Number>, pos: int) -> Parsed<ExprView>
    decreases tokens.len() - pos, 0nat,
{
    let token = token_at(tokens, pos);
    match primary(token, value_at(numbers, pos)) {
        Some(e) => Parsed { result: Ok(e), next: pos + 1 },
        None => if token.ty == TokenType::LParen {
            let inner = expression(tokens, numbers, pos + 1);
            match inner.result {
                Err(_) => inner,
                Ok(e) => if kind_at(tokens, inner.next) == TokenType::RParen {
                    Parsed { result: Ok(ExprView::Grouping(Box::new(e))), next: inner.next + 1 }
                } else {
                    fail(
                        expected(token_at(tokens, inner.next), "Expected ')' after expression"@),
                        inner.next,
                    )
                },
            }
        } else if token.ty == TokenType::Char {
            fail(syntax_error(token, "Malformed character literal"@), pos)
        } else {
            fail(syntax_error(token, "Expected expression"@), pos)
        },
    }
}

/// unary := ("!" | "-") unary | atom
#[verifier::opaque]
pub open spec fn unary(tokens: Seq<TokenView>, numbers: Seq<Number>, pos: int) -> Parsed<ExprView>
    decreases tokens.len() - pos, 1nat,
{
    match unary_op(kind_at(tokens, pos)) {
        Some(op) => {
            let operand = unary(tokens, numbers, pos + 1);
            match operand.result {
                Err(_) => operand,
                Ok(e) => Parsed { result: Ok(ExprView::Unary(op, Box::new(e))), next: operand.next },
            }
        },
        None => atom(tokens, numbers, pos),
    }
}

/// An operand of the operators of `level`: a construct of the next level.
#[verifier::opaque]
pub open spec fn operand(tokens: Seq<TokenView>, numbers: Seq<Number>, level: nat, pos: int) -> Parsed<
    ExprView,
>
    decreases tokens.len() - pos, tier_rank(level) - 1,
{
    if level >= 3 {
        unary(tokens, numbers, pos)
    } else {
        binary(tokens, numbers, level + 1, pos)
    }
}

/// level := operand (operator operand)*, grouping to the left.
#[verifier::opaque]
pub open spec fn binary(tokens: Seq<TokenView>, numbers: Seq<Number>, level: nat, pos: int) -> Parsed<
    ExprView,
>
    decreases tokens.len() - pos, tier_rank(level),
{
    let first = operand(tokens, numbers, level, pos);
    match first.result {
        Err(_) => first,
        Ok(e) => if pos < first.next <= tokens.len() {
            binary_rest(tokens, numbers, level, first.next, e)
        } else {
            first
        },
    }
}

/// The rest of a chain of operators of `level`, with `left` parsed so far.
#[verifier::opaque]
pub open spec fn binary_rest(
    tokens: Seq<TokenView>,
    numbers: Seq<Number>,
    level: nat,
    pos: int,
    left: ExprView,
) -> Parsed<ExprView>
    decreases tokens.len() - pos, 0nat,
{
    match tier_op(level, kind_at(tokens, pos)) {
        None => Parsed { result: Ok(left), next: pos },
        Some(op) => {
            let right = operand(tokens, numbers, level, pos + 1);
            match right.result {
                Err(_) => right,
                Ok(e) => if pos < right.next <= tokens.len() {
                    binary_rest(
                        tokens,
                        numbers,
                        level,
                        right.next,
                        ExprView::Binary(Box::new(left), op, Box::new(e)),
                    )
                } else {
                    right
                },
            }
        },
    }
}

/// assignment := equality ("=" assignment)?, where the left side of "="
/// must be a variable.
#[verifier::opaque]
pub open spec fn assignment(tokens: Seq<TokenView>, numbers: Seq<Number>, pos: int) -> Parsed<
    ExprView,
>
    decreases tokens.len() - pos, 14nat,
{
    let target = binary(tokens, numbers, 0, pos);
    match target.result {
        Err(_) => target,
        Ok(e) => if kind_at(tokens, target.next) == TokenType::Eq && target.next >= pos {
            let value = assignment(tokens, numbers, target.next + 1);
            match value.result {
                Err(_) => value,
                Ok(v) => match e {
                    ExprView::Variable(name) => Parsed {
                        result: Ok(ExprView::Assign(name, Box::new(v))),
                        next: value.next,
                    },
                    _ => fail(
                        syntax_error(token_at(tokens, target.next), "lvalue required"@),
                        value.next,
                    ),
                },
            }
        } else {
            target
        },
    }
}

/// expression := assignment
#[verifier::opaque]
pub open spec fn expression(tokens: Seq<TokenView>, numbers: Seq<Number>, pos: int) -> Parsed<
    ExprView,
>
    decreases tokens.len() - pos, 15nat,
{
    assignment(tokens, numbers, pos)
}

/// What follows an expression that ends a statement: the semicolon.
pub open spec fn terminated(
    tokens: Seq<TokenView>,
    parsed: Parsed<ExprView>,
    msg: Seq<char>,
) -> Parsed<ExprView> {
    match parsed.result {
        Err(_) => parsed,
        Ok(e) => if kind_at(tokens, parsed.next) == TokenType::Semicolon {
            Parsed { result: Ok(e), next: parsed.next + 1 }
        } else {
            fail(expected(token_at(tokens, parsed.next), msg), parsed.next)
        },
    }
}

/// expression_statement := expression ";"
pub open spec fn expression_statement(tokens: Seq<TokenView>, numbers: Seq<Number>, pos: int) -> Parsed<
    StmtView,
> {
    let e = terminated(tokens, expression(tokens, numbers, pos), "Expected ';' after expression"@);
    match e.result {
        Err(d) => fail(d, e.next),
        Ok(x) => Parsed { result: Ok(StmtView::Expr(x)), next: e.next },
    }
}

/// print_statement := expression ";", after the print keyword.
pub open spec fn print_statement(tokens: Seq<TokenView>, numbers: Seq<Number>, pos: int) -> Parsed<
    StmtView,
> {
    let e = terminated(tokens, expression(tokens, numbers, pos), "Expected ';' after expression"@);
    match e.result {
        Err(d) => fail(d, e.next),
        Ok(x) => Parsed { result: Ok(StmtView::Print(x)), next: e.next },
    }
}

/// variable_declaration := IDENT ("=" expression)? ";", after "let".
pub open spec fn variable_declaration(tokens: Seq<TokenView>, numbers: Seq<Number>, pos: int) -> Parsed<
    StmtView,
> {
    if kind_at(tokens, pos) != TokenType::Ident {
        fail(expected(token_at(tokens, pos), "Expected identifier"@), pos)
    } else {
        let name = token_at(tokens, pos).lexeme;
        if kind_at(tokens, pos + 1) == TokenType::Eq {
            let e = terminated(
                tokens,
                expression(tokens, numbers, pos + 2),
                "Expected ';' after declaration"@,
            );
            match e.result {
                Err(d) => fail(d, e.next),
                Ok(x) => Parsed { result: Ok(StmtView::Let(name, Some(x))), next: e.next },
            }
        } else if kind_at(tokens, pos + 1) == TokenType::Semicolon {
            Parsed { result: Ok(StmtView::Let(name, None)), next: pos + 2 }
        } else {
            fail(expected(token_at(tokens, pos + 1), "Expected ';' after declaration"@), pos + 1)
        }
    }
}

/// The branch of a conditional: "{" statement "}", where `open_msg` says
/// what the opening brace should follow.
#[verifier::opaque]
pub open spec fn branch(
    tokens: Seq<TokenView>,
    numbers: Seq<Number>,
    pos: int,
    open_msg: Seq<char>,
) -> Parsed<StmtView>
    decreases tokens.len() - pos, 0nat,
{
    if kind_at(tokens, pos) != TokenType::LCurly {
        fail(expected(token_at(tokens, pos), open_msg), pos)
    } else {
        let body = statement(tokens, numbers, pos + 1);
        match body.result {
            Err(_) => body,
            Ok(s) => if kind_at(tokens, body.next) == TokenType::RCurly {
                Parsed { result: Ok(s), next: body.next + 1 }
            } else {
                fail(
                    expected(token_at(tokens, body.next), "Expected '}' after statement"@),
                    body.next,
                )
            },
        }
    }
}

/// if_statement := "(" expression ")" "{" statement "}"
///                 ("else" "{" statement "}")?, after "if".
#[verifier::opaque]
pub open spec fn if_statement(tokens: Seq<TokenView>, numbers: Seq<Number>, pos: int) -> Parsed<
    StmtView,
>
    decreases tokens.len() - pos, 1nat,
{
    if kind_at(tokens, pos) != TokenType::LParen {
        fail(expected(token_at(tokens, pos), "Expected '(' before expression"@), pos)
    } else {
        let condition = expression(tokens, numbers, pos + 1);
        match condition.result {
            Err(d) => fail(d, condition.next),
            Ok(c) => if kind_at(tokens, condition.next) != TokenType::RParen {
                fail(
                    expected(token_at(tokens, condition.next), "Expected ')' after expression"@),
                    condition.next,
                )
            } else if condition.next < pos {
                fail(nowhere(), condition.next)
            } else {
                let main = branch(
                    tokens,
                    numbers,
                    condition.next + 1,
                    "Expected '{' after condition"@,
                );
                match main.result {
                    Err(_) => main,
                    Ok(t) => if kind_at(tokens, main.next) == TokenType::Else && main.next >= pos {
                        let other = branch(
                            tokens,
                            numbers,
                            main.next + 1,
                            "Expected '{' after else branch"@,
                        );
                        match other.result {
                            Err(_) => other,
                            Ok(e) => Parsed {
                                result: Ok(StmtView::If(c, Box::new(t), Some(Box::new(e)))),
                                next: other.next,
                            },
                        }
                    } else {
                        Parsed { result: Ok(StmtView::If(c, Box::new(t), None)), next: main.next }
                    },
                }
            },
        }
    }
}

/// A diagnostic without content; it stands where no parse can arrive.
pub open spec fn nowhere() -> DiagnosticView {
    DiagnosticView { line: 0, message: Seq::empty() }
}

/// The statements of a block up to its closing brace, after "{".
#[verifier::opaque]
pub open spec fn block(tokens: Seq<TokenView>, numbers: Seq<Number>, pos: int) -> Parsed<
    Seq<StmtView>,
>
    decreases tokens.len() - pos, 4nat,
{
    if kind_at(tokens, pos) == TokenType::RCurly {
        Parsed { result: Ok(Seq::empty()), next: pos + 1 }
    } else if at_end(tokens, pos) {
        fail(expected(token_at(tokens, pos), "Expected '}' after block"@), pos)
    } else {
        let first = declaration(tokens, numbers, pos);
        match first.result {
            Err(d) => fail(d, first.next),
            Ok(s) => if pos < first.next <= tokens.len() {
                let rest = block(tokens, numbers, first.next);
                match rest.result {
                    Err(_) => rest,
                    Ok(ss) => Parsed { result: Ok(seq![s] + ss), next: rest.next },
                }
            } else {
                fail(nowhere(), first.next)
            },
        }
    }
}

/// statement := "if" if_statement | PRINT print_statement | "{" block
///            | expression_statement
#[verifier::opaque]
pub open spec fn statement(tokens: Seq<TokenView>, numbers: Seq<Number>, pos: int) -> Parsed<
    StmtView,
>
    decreases tokens.len() - pos, 2nat,
{
    match kind_at(tokens, pos) {
        TokenType::If => if_statement(tokens, numbers, pos + 1),
        TokenType::Print => print_statement(tokens, numbers, pos + 1),
        TokenType::LCurly => {
            let body = block(tokens, numbers, pos + 1);
            match body.result {
                Err(d) => fail(d, body.next),
                Ok(ss) => Parsed { result: Ok(StmtView::Block(ss)), next: body.next },
            }
        },
        _ => expression_statement(tokens, numbers, pos),
    }
}

/// declaration := "let" variable_declaration | statement
#[verifier::opaque]
pub open spec fn declaration(tokens: Seq<TokenView>, numbers: Seq<Number>, pos: int) -> Parsed<
    StmtView,
>
    decreases tokens.len() - pos, 3nat,
{
    if kind_at(tokens, pos) == TokenType::Let {
        variable_declaration(tokens, numbers, pos + 1)
    } else {
        statement(tokens, numbers, pos)
    }
}

/// Whether a token of kind `ty` begins a statement, so that parsing can
/// resume at it after an error.
pub open spec fn boundary(ty: TokenType) -> bool {
    ty == TokenType::Struct || ty == TokenType::Fun || ty == TokenType::Let || ty == TokenType::For
        || ty == TokenType::If || ty == TokenType::While || ty == TokenType::Return
}

/// Where parsing resumes when tokens are discarded from `pos` on: after a
/// semicolon, before a token that begins a statement, or at the end.
#[verifier::opaque]
pub open spec fn resume_from(tokens: Seq<TokenView>, pos: int) -> int
    decreases tokens.len() - pos,
{
    if at_end(tokens, pos) {
        pos
    } else if kind_at(tokens, pos - 1) == TokenType::Semicolon {
        pos
    } else if boundary(kind_at(tokens, pos)) {
        pos
    } else {
        resume_from(tokens, pos + 1)
    }
}

/// Where parsing resumes after an error at `pos`: the token at `pos` is
/// discarded, and then tokens up to the next statement boundary.
pub open spec fn synchronize(tokens: Seq<TokenView>, pos: int) -> int {
    if at_end(tokens, pos) {
        pos
    } else {
        resume_from(tokens, pos + 1)
    }
}

/// What a token sequence parses to.
pub struct Program {
    pub statements: Seq<StmtView>,
    pub diagnostics: Seq<DiagnosticView>,
}

/// The statements and diagnostics of the tokens from `pos` on. A
/// declaration that fails gives a diagnostic and no statement; parsing
/// resumes at the next statement boundary.
#[verifier::opaque]
pub open spec fn program(tokens: Seq<TokenView>, numbers: Seq<Number>, pos: int) -> Program
    decreases tokens.len() - pos,
{
    if at_end(tokens, pos) {
        Program { statements: Seq::empty(), diagnostics: Seq::empty() }
    } else {
        let first = declaration(tokens, numbers, pos);
        match first.result {
            Ok(s) => if pos < first.next <= tokens.len() {
                let rest = program(tokens, numbers, first.next);
                Program { statements: seq![s] + rest.statements, diagnostics: rest.diagnostics }
            } else {
                Program { statements: Seq::empty(), diagnostics: Seq::empty() }
            },
            Err(d) => {
                let resume = synchronize(tokens, first.next);
                if pos < resume <= tokens.len() {
                    let rest = program(tokens, numbers, resume);
                    Program { statements: rest.statements, diagnostics: seq![d] + rest.diagnostics }
                } else {
                    Program { statements: Seq::empty(), diagnostics: seq![d] }
                }
            },
        }
    }
}

/// A parse that began at `pos` has moved forward within the input: it
/// never goes back, a success has consumed at least one token, and no
/// parse goes past the last token.
pub open spec fn forward<T>(tokens: Seq<TokenView>, pos: int, parsed: Parsed<T>) -> bool {
    &&& pos <= parsed.next
    &&& parsed.result is Ok ==> pos < parsed.next
    &&& parsed.next <= tokens.len() || parsed.next == pos
}

/// Every parse of an atom moves forward.
pub proof fn lemma_atom_forward(tokens: Seq<TokenView>, numbers: Seq<Number>, pos: int)
    ensures
        forward(tokens, pos, atom(tokens, numbers, pos)),
    decreases tokens.len() - pos, 0nat,
{
    reveal_with_fuel(atom, 1);
    reveal_with_fuel(expression, 1);
    if 0 <= pos < tokens.len() && tokens[pos].ty == TokenType::LParen {
        lemma_expression_forward(tokens, numbers, pos + 1);
    }
}

/// Every parse of a unary expression moves forward.
pub proof fn lemma_unary_forward(tokens: Seq<TokenView>, numbers: Seq<Number>, pos: int)
    ensures
        forward(tokens, pos, unary(tokens, numbers, pos)),
    decreases tokens.len() - pos, 1nat,
{
    reveal_with_fuel(unary, 1);
    reveal_with_fuel(atom, 1);
    if unary_op(kind_at(tokens, pos)) is Some {
        lemma_unary_forward(tokens, numbers, pos + 1);
    } else {
        lemma_atom_forward(tokens, numbers, pos);
    }
}

/// Every parse of an operand moves forward.
pub proof fn lemma_operand_forward(
    tokens: Seq<TokenView>,
    numbers: Seq<Number>,
    level: nat,
    pos: int,
)
    ensures
        forward(tokens, pos, operand(tokens, numbers, level, pos)),
    decreases tokens.len() - pos, tier_rank(level) - 1,
{
    reveal_with_fuel(operand, 1);
    reveal_with_fuel(unary, 1);
    reveal_with_fuel(binary, 1);
    if level >= 3 {
        lemma_unary_forward(tokens, numbers, pos);
    } else {
        lemma_binary_forward(tokens, numbers, level + 1, pos);
    }
}

/// Every parse of a chain of binary operators moves forward.
pub proof fn lemma_binary_forward(
    tokens: Seq<TokenView>,
    numbers: Seq<Number>,
    level: nat,
    pos: int,
)
    ensures
        forward(tokens, pos, binary(tokens, numbers, level, pos)),
    decreases tokens.len() - pos, tier_rank(level),
{
    reveal_with_fuel(binary, 1);
    reveal_with_fuel(operand, 1);
    reveal_with_fuel(binary_rest, 1);
    lemma_operand_forward(tokens, numbers, level, pos);
    let first = operand(tokens, numbers, level, pos);
    match first.result {
        Ok(e) => {
            lemma_binary_rest_forward(tokens, numbers, level, first.next, e);
        },
        Err(_) => {},
    }
}

/// Every parse of the rest of a chain of binary operators moves forward,
/// or stays where no operator follows.
pub proof fn lemma_binary_rest_forward(
    tokens: Seq<TokenView>,
    numbers: Seq<Number>,
    level: nat,
    pos: int,
    left: ExprView,
)
    requires
        pos <= tokens.len(),
    ensures
        pos <= binary_rest(tokens, numbers, level, pos, left).next <= tokens.len(),
    decreases tokens.len() - pos, 0nat,
{
    reveal_with_fuel(binary_rest, 1);
    reveal_with_fuel(operand, 1);
    match tier_op(level, kind_at(tokens, pos)) {
        None => {},
        Some(op) => {
            lemma_operand_forward(tokens, numbers, level, pos + 1);
            let right = operand(tokens, numbers, level, pos + 1);
            match right.result {
                Ok(e) => {
                    lemma_binary_rest_forward(
                        tokens,
                        numbers,
                        level,
                        right.next,
                        ExprView::Binary(Box::new(left), op, Box::new(e)),
                    );
                },
                Err(_) => {},
            }
        },
    }
}

/// Every parse of an assignment moves forward.
pub proof fn lemma_assignment_forward(tokens: Seq<TokenView>, numbers: Seq<Number>, pos: int)
    ensures
        forward(tokens, pos, assignment(tokens, numbers, pos)),
    decreases tokens.len() - pos, 14nat,
{
    reveal_with_fuel(assignment, 1);
    reveal_with_fuel(binary, 1);
    lemma_binary_forward(tokens, numbers, 0, pos);
    let target = binary(tokens, numbers, 0, pos);
    if target.result is Ok && kind_at(tokens, target.next) == TokenType::Eq {
        lemma_assignment_forward(tokens, numbers, target.next + 1);
    }
}

/// Every parse of an expression moves forward.
pub proof fn lemma_expression_forward(tokens: Seq<TokenView>, numbers: Seq<Number>, pos: int)
    ensures
        forward(tokens, pos, expression(tokens, numbers, pos)),
    decreases tokens.len() - pos, 15nat,
{
    reveal_with_fuel(expression, 1);
    reveal_with_fuel(assignment, 1);
    lemma_assignment_forward(tokens, numbers, pos);
}

/// Every parse of a branch moves forward.
pub proof fn lemma_branch_forward(
    tokens: Seq<TokenView>,
    numbers: Seq<Number>,
    pos: int,
    open_msg: Seq<char>,
)
    ensures
        forward(tokens, pos, branch(tokens, numbers, pos, open_msg)),
    decreases tokens.len() - pos, 0nat,
{
    reveal_with_fuel(branch, 1);
    reveal_with_fuel(statement, 1);
    if kind_at(tokens, pos) == TokenType::LCurly {
        lemma_statement_forward(tokens, numbers, pos + 1);
    }
}

/// Every parse of a conditional moves forward.
pub proof fn lemma_if_statement_forward(tokens: Seq<TokenView>, numbers: Seq<Number>, pos: int)
    ensures
        forward(tokens, pos, if_statement(tokens, numbers, pos)),
    decreases tokens.len() - pos, 1nat,
{
    reveal_with_fuel(if_statement, 1);
    reveal_with_fuel(branch, 1);
    if kind_at(tokens, pos) == TokenType::LParen {
        lemma_expression_forward(tokens, numbers, pos + 1);
        let condition = expression(tokens, numbers, pos + 1);
        if condition.result is Ok && kind_at(tokens, condition.next) == TokenType::RParen {
            lemma_branch_forward(
                tokens,
                numbers,
                condition.next + 1,
                "Expected '{' after condition"@,
            );
            let main = branch(tokens, numbers, condition.next + 1, "Expected '{' after condition"@);
            if main.result is Ok && kind_at(tokens, main.next) == TokenType::Else {
                lemma_branch_forward(
                    tokens,
                    numbers,
                    main.next + 1,
                    "Expected '{' after else branch"@,
                );
            }
        }
    }
}

/// Every parse of the statements of a block moves forward.
pub proof fn lemma_block_forward(tokens: Seq<TokenView>, numbers: Seq<Number>, pos: int)
    ensures
        forward(tokens, pos, block(tokens, numbers, pos)),
    decreases tokens.len() - pos, 4nat,
{
    reveal_with_fuel(block, 1);
    reveal_with_fuel(declaration, 1);
    if kind_at(tokens, pos) != TokenType::RCurly && !at_end(tokens, pos) {
        lemma_declaration_forward(tokens, numbers, pos);
        let first = declaration(tokens, numbers, pos);
        if first.result is Ok {
            lemma_block_forward(tokens, numbers, first.next);
        }
    }
}

/// Every parse of a statement moves forward.
pub proof fn lemma_statement_forward(tokens: Seq<TokenView>, numbers: Seq<Number>, pos: int)
    ensures
        forward(tokens, pos, statement(tokens, numbers, pos)),
    decreases tokens.len() - pos, 2nat,
{
    reveal_with_fuel(statement, 1);
    reveal_with_fuel(if_statement, 1);
    reveal_with_fuel(block, 1);
    match kind_at(tokens, pos) {
        TokenType::If => {
            lemma_if_statement_forward(tokens, numbers, pos + 1);
        },
        TokenType::Print => {
            lemma_expression_forward(tokens, numbers, pos + 1);
        },
        TokenType::LCurly => {
            lemma_block_forward(tokens, numbers, pos + 1);
        },
        _ => {
            lemma_expression_forward(tokens, numbers, pos);
        },
    }
}

/// Every parse of a declaration moves forward.
pub proof fn lemma_declaration_forward(tokens: Seq<TokenView>, numbers: Seq<Number>, pos: int)
    ensures
        forward(tokens, pos, declaration(tokens, numbers, pos)),
    decreases tokens.len() - pos, 3nat,
{
    reveal_with_fuel(declaration, 1);
    reveal_with_fuel(statement, 1);
    if kind_at(tokens, pos) == TokenType::Let {
        if kind_at(tokens, pos + 1) == TokenType::Ident && kind_at(tokens, pos + 2)
            == TokenType::Eq {
            lemma_expression_forward(tokens, numbers, pos + 3);
        }
    } else {
        lemma_statement_forward(tokens, numbers, pos);
    }
}

/// Discarding tokens after an error moves forward within the input, and
/// past the token at which the error was found unless the input ends there.
pub proof fn lemma_synchronize_forward(tokens: Seq<TokenView>, pos: int)
    requires
        0 <= pos <= tokens.len(),
    ensures
        pos <= synchronize(tokens, pos) <= tokens.len(),
        !at_end(tokens, pos) ==> pos < synchronize(tokens, pos),
{
    if !at_end(tokens, pos) {
        lemma_resume_forward(tokens, pos + 1);
    }
}

/// Discarding tokens moves forward within the input.
proof fn lemma_resume_forward(tokens: Seq<TokenView>, pos: int)
    requires
        0 <= pos <= tokens.len(),
    ensures
        pos <= resume_from(tokens, pos) <= tokens.len(),
    decreases tokens.len() - pos,
{
    reveal_with_fuel(resume_from, 1);
    if !at_end(tokens, pos) && kind_at(tokens, pos - 1) != TokenType::Semicolon && !boundary(
        kind_at(tokens, pos),
    ) {
        lemma_resume_forward(tokens, pos + 1);
    }
}

/// A program is parsed declaration by declaration, with no declaration
/// left out: after a declaration that parsed come the statements of the
/// rest, and after one that did not, those of what follows the place where
/// parsing resumes.
pub proof fn lemma_program_unfolds(tokens: Seq<TokenView>, numbers: Seq<Number>, pos: int)
    requires
        0 <= pos <= tokens.len(),
        !at_end(tokens, pos),
    ensures
        match declaration(tokens, numbers, pos).result {
            Ok(s) => program(tokens, numbers, pos).statements == seq![s] + program(
                tokens,
                numbers,
                declaration(tokens, numbers, pos).next,
            ).statements && program(tokens, numbers, pos).diagnostics == program(
                tokens,
                numbers,
                declaration(tokens, numbers, pos).next,
            ).diagnostics,
            Err(d) => program(tokens, numbers, pos).statements == program(
                tokens,
                numbers,
                synchronize(tokens, declaration(tokens, numbers, pos).next),
            ).statements && program(tokens, numbers, pos).diagnostics == seq![d] + program(
                tokens,
                numbers,
                synchronize(tokens, declaration(tokens, numbers, pos).next),
            ).diagnostics,
        },
{
    reveal_with_fuel(program, 1);
    lemma_declaration_forward(tokens, numbers, pos);
    let first = declaration(tokens, numbers, pos);
    if first.result is Err {
        if first.next <= tokens.len() {
            lemma_synchronize_forward(tokens, first.next);
        }
    }
}

} // verus!

//! A tree-walking interpreter for a small dynamically typed language.
//!
//! Source text is turned into tokens by [`lang::Lexer`], tokens into
//! statements by [`lang::Parser`], and statements are run by
//! [`lang::Interpreter`]; [`Stellar`] takes a chunk of source through all
//! three. Numbers are IEEE-754 doubles held as bit patterns: the host reads
//! them, computes with them and writes them when it is asked to.
use vstd::prelude::*;
use crate::lang::diagnostic::{Diagnostic, DiagnosticView, diagnostic_views, error_line};
use crate::lang::grammar::program;
use crate::lang::interpreter::Interpreter;
use crate::lang::lexer::{Lexer, lex};
use crate::lang::machine::{
    Reply,
    ReplyView,
    Request,
    RequestView,
    State,
    advance,
    answered,
    awaited,
    cost,
    initial,
    lemma_no_answer,
    scheduled,
    settled,
    text_views,
};
use crate::lang::number::Number;
use crate::lang::parser::Parser;
use crate::lang::semantics::{
    Host,
    driven,
    execute_all,
    lemma_answer_progress,
    lemma_driven_settled,
    lemma_interpret,
    lemma_settled_cost,
    reply_to,
    resting,
    urgency,
    world,
};
use crate::lang::token::{Token, TokenType, TokenView, token_views};

pub mod lang;

pub use crate::lang::diagnostic::error;
pub use crate::lang::interpreter::{InterpreterMode, InterpreterProperties};

verus! {

/// The interpreter with its front end: it takes chunks of source text.
pub struct Stellar {
    interpreter: Interpreter,
    error_found: bool,
    tokens: Vec<Token>,
    numbers: Vec<Number>,
    preparing: bool,
}

/// The mathematical value of a [`Stellar`].
pub struct Session {
    /// The interpreter.
    pub interpreter: State,
    /// Whether the last chunk had lexical or syntax errors.
    pub error_found: bool,
    /// The tokens of the chunk whose numerals are being read.
    pub tokens: Seq<TokenView>,
    /// The values of those tokens, as far as they are known.
    pub numbers: Seq<Number>,
    /// Whether the numerals of a chunk are being read.
    pub preparing: bool,
}

impl View for Stellar {
    type V = Session;

    closed spec fn view(&self) -> Session {
        Session {
            interpreter: self.interpreter@,
            error_found: self.error_found,
            tokens: token_views(self.tokens@),
            numbers: self.numbers@,
            preparing: self.preparing,
        }
    }
}

/// The lines of output that report `diagnostics`.
pub open spec fn rendered(diagnostics: Seq<DiagnosticView>) -> Seq<Seq<char>> {
    Seq::new(
        diagnostics.len(),
        |i: int| error_line(diagnostics[i].line, diagnostics[i].message),
    )
}

/// The state of an interpreter after `diagnostics` are reported.
pub open spec fn reported(s: State, diagnostics: Seq<DiagnosticView>) -> State {
    State { output: s.output + rendered(diagnostics), ..s }
}

/// `numbers` with a zero for each token up to the next number token.
pub open spec fn fill(tokens: Seq<TokenView>, numbers: Seq<Number>) -> Seq<Number>
    decreases tokens.len() - numbers.len(),
{
    if numbers.len() >= tokens.len() || tokens[numbers.len() as int].ty == TokenType::Number {
        numbers
    } else {
        fill(tokens, numbers.push(Number { bits: 0 }))
    }
}

/// The session without a chunk in preparation.
pub open spec fn idle(v: Session) -> Session {
    Session { tokens: Seq::empty(), numbers: Seq::empty(), preparing: false, ..v }
}

/// The session after the preparation of its chunk has gone as far as it
/// goes without the host: up to the next numeral, or to the end. At the end
/// the chunk is parsed; its statements are taken up if it has no syntax
/// error, and its diagnostics are reported if it has.
pub open spec fn prepared(v: Session) -> Session {
    let numbers = fill(v.tokens, v.numbers);
    if numbers.len() < v.tokens.len() {
        Session { numbers, preparing: true, ..v }
    } else {
        let parsed = program(v.tokens, numbers, 0);
        if parsed.diagnostics.len() > 0 {
            idle(
                Session {
                    interpreter: reported(v.interpreter, parsed.diagnostics),
                    error_found: true,
                    ..v
                },
            )
        } else {
            idle(
                Session {
                    interpreter: settled(
                        State {
                            agenda: v.interpreter.agenda + scheduled(parsed.statements),
                            ..v.interpreter
                        },
                    ),
                    ..v
                },
            )
        }
    }
}

/// The session after it is given the chunk `source`. A chunk with a
/// lexical error is reported and goes no further; so does an empty one.
pub open spec fn started(v: Session, source: Seq<char>) -> Session {
    let lexed = lex(source);
    if lexed.diagnostics.len() > 0 {
        idle(
            Session {
                interpreter: reported(v.interpreter, lexed.diagnostics),
                error_found: true,
                ..v
            },
        )
    } else if lexed.tokens.len() == 0 || lexed.tokens[0].ty == TokenType::Eof {
        idle(Session { error_found: false, ..v })
    } else {
        prepared(
            Session {
                error_found: false,
                tokens: lexed.tokens,
                numbers: Seq::empty(),
                preparing: true,
                ..v
            },
        )
    }
}

/// What the session asks of the host.
pub open spec fn asked(v: Session) -> RequestView {
    if v.preparing {
        RequestView::Numeral(v.tokens[v.numbers.len() as int].lexeme)
    } else {
        awaited(v.interpreter)
    }
}

/// The session after one call of the host with `reply`.
pub open spec fn resumed(v: Session, reply: ReplyView) -> Session {
    if v.preparing {
        match reply {
            ReplyView::Number(n) => prepared(Session { numbers: v.numbers.push(n), ..v }),
            _ => v,
        }
    } else {
        Session { interpreter: settled(advance(v.interpreter, reply)), ..v }
    }
}

impl Stellar {
    /// While the numerals of a chunk are read, the next token without a
    /// value is a number token.
    pub open spec fn wf(&self) -> bool {
        &&& self@.interpreter.frames.len() >= 1
        &&& !(awaited(self@.interpreter) is Continue)
        &&& self@.preparing ==> self@.numbers.len() < self@.tokens.len()
            && self@.tokens[self@.numbers.len() as int].ty == TokenType::Number
    }

    /// A session with a new interpreter and no chunk in preparation.
    pub fn new(properties: InterpreterProperties) -> (r: Self)
        ensures
            r.wf(),
            r@ == (Session {
                interpreter: initial(properties),
                error_found: false,
                tokens: Seq::empty(),
                numbers: Seq::empty(),
                preparing: false,
            }),
    {
        let r = Self {
            interpreter: Interpreter::new(properties),
            error_found: false,
            tokens: Vec::new(),
            numbers: Vec::new(),
            preparing: false,
        };
        assert(r@.tokens =~= Seq::empty());
        r
    }

    /// Takes the chunk `source` as far as it goes without the host, and
    /// returns what the host is asked to do next.
    pub fn run(&mut self, source: String) -> (r: Request)
        requires
            old(self).wf(),
        ensures
            final(self).wf(),
            final(self)@ == started(old(self)@, source@),
            r@ == asked(final(self)@),
    {
        let mut lexer = Lexer::new(source);
        lexer.scan_tokens();
        let (tokens, diagnostics) = lexer.into_parts();
        proof {
            assert(lex(source@).tokens =~= Seq::<TokenView>::empty() + lex(source@).tokens);
            assert(lex(source@).diagnostics =~= Seq::<DiagnosticView>::empty() + lex(
                source@,
            ).diagnostics);
        }
        self.tokens = Vec::new();
        self.numbers = Vec::new();
        self.preparing = false;
        assert(self@.tokens =~= Seq::empty());
        if diagnostics.len() > 0 {
            self.report(&diagnostics);
            self.error_found = true;
            return self.interpreter.request();
        }
        self.error_found = false;
        if tokens.len() == 0 || tokens[0].ty == TokenType::Eof {
            return self.interpreter.request();
        }
        self.tokens = tokens;
        self.preparing = true;
        self.prepare()
    }

    /// Takes in the host's answer and goes on as far as it goes without the
    /// host. Returns what the host is asked to do next.
    pub fn resume(&mut self, reply: Reply) -> (r: Request)
        requires
            old(self).wf(),
        ensures
            final(self).wf(),
            final(self)@ == resumed(old(self)@, reply@),
            r@ == asked(final(self)@),
    {
        if self.preparing {
            match reply {
                Reply::Number(n) => {
                    self.numbers.push(n);
                    self.prepare()
                },
                _ => self.numeral(),
            }
        } else {
            self.interpreter.run(reply)
        }
    }

    /// Whether the last chunk had a lexical or syntax error; the mark is
    /// cleared.
    pub fn handle_error_runtime(&mut self) -> (r: bool)
        ensures
            r == old(self)@.error_found,
            final(self)@ == (Session { error_found: false, ..old(self)@ }),
            old(self).wf() ==> final(self).wf(),
    {
        if self.error_found {
            self.error_found = false;
            return true;
        }
        false
    }

    /// Whether the last chunk had a lexical or syntax error.
    pub fn error_found(&self) -> (r: bool)
        ensures
            r == self@.error_found,
    {
        self.error_found
    }

    /// Sets or clears the mark of a lexical or syntax error.
    pub fn set_error_found(&mut self, err: bool)
        ensures
            final(self)@ == (Session { error_found: err, ..old(self)@ }),
            old(self).wf() ==> final(self).wf(),
    {
        self.error_found = err;
    }

    /// Hands over the lines of output produced since the last call.
    pub fn take_output(&mut self) -> (r: Vec<String>)
        ensures
            text_views(r@) == old(self)@.interpreter.output,
            final(self)@ == (Session {
                interpreter: State { output: Seq::empty(), ..old(self)@.interpreter },
                ..old(self)@
            }),
            old(self).wf() ==> final(self).wf(),
    {
        self.interpreter.take_output()
    }

    /// Reports `diagnostics` in the output.
    fn report(&mut self, diagnostics: &Vec<Diagnostic>)
        ensures
            final(self)@ == (Session {
                interpreter: reported(old(self)@.interpreter, diagnostic_views(diagnostics@)),
                ..old(self)@
            }),
    {
        let mut i: usize = 0;
        let ghost all = diagnostic_views(diagnostics@);
        assert(self@.interpreter.output =~= old(self)@.interpreter.output + rendered(all).take(0));
        while i < diagnostics.len()
            invariant
                i <= diagnostics.len(),
                all == diagnostic_views(diagnostics@),
                self@ == (Session {
                    interpreter: State {
                        output: old(self)@.interpreter.output + rendered(all).take(i as int),
                        ..old(self)@.interpreter
                    },
                    ..old(self)@
                }),
            decreases diagnostics.len() - i,
        {
            let ghost before = self@.interpreter.output;
            self.interpreter.print(diagnostics[i].render());
            proof {
                assert(before.push(rendered(all)[i as int]) =~= old(self)@.interpreter.output
                    + rendered(all).take(i + 1));
            }
            i += 1;
        }
        assert(rendered(all).take(i as int) =~= rendered(all));
    }

    /// The request for the value of the next number token.
    fn numeral(&self) -> (r: Request)
        requires
            self@.preparing,
            self@.numbers.len() < self@.tokens.len(),
        ensures
            r@ == asked(self@),
    {
        Request::Numeral(self.tokens[self.numbers.len()].lexeme.clone())
    }

    /// Goes on with the preparation of the chunk as far as it goes without
    /// the host.
    fn prepare(&mut self) -> (r: Request)
        requires
            old(self)@.interpreter.frames.len() >= 1,
            !(awaited(old(self)@.interpreter) is Continue),
            old(self)@.preparing,
        ensures
            final(self).wf(),
            final(self)@ == prepared(old(self)@),
            r@ == asked(final(self)@),
    {
        while self.numbers.len() < self.tokens.len() && self.tokens[self.numbers.len()].ty
            != TokenType::Number
            invariant
                self@ == (Session { numbers: self@.numbers, ..old(self)@ }),
                fill(self@.tokens, self@.numbers) == fill(old(self)@.tokens, old(self)@.numbers),
            decreases self@.tokens.len() - self@.numbers.len(),
        {
            self.numbers.push(Number::from_bits(0));
        }
        if self.numbers.len() < self.tokens.len() {
            return self.numeral();
        }
        let mut tokens: Vec<Token> = Vec::new();
        let mut numbers: Vec<Number> = Vec::new();
        std::mem::swap(&mut tokens, &mut self.tokens);
        std::mem::swap(&mut numbers, &mut self.numbers);
        self.preparing = false;
        assert(self@.tokens =~= Seq::empty());
        let mut parser = Parser::new(&tokens, &numbers);
        let statements = parser.parse();
        let diagnostics = parser.into_diagnostics();
        proof {
            let parsed = program(token_views(tokens@), numbers@, 0);
            assert(diagnostic_views(diagnostics@) =~= Seq::<DiagnosticView>::empty()
                + parsed.diagnostics);
        }
        if diagnostics.len() > 0 {
            self.report(&diagnostics);
            self.error_found = true;
            self.interpreter.request()
        } else {
            self.interpreter.interpret(statements.as_slice());
            proof {
                lemma_no_answer(self.interpreter@);
            }
            self.interpreter.run(Reply::Nothing)
        }
    }
}


/// A chunk with a lexical error is not executed: nothing of it is parsed
/// or taken up by the interpreter, whose scopes, jobs and evaluation stay
/// as they were. Its diagnostics are reported and the error is marked.
pub proof fn lemma_lexical_error_stops_chunk(v: Session, source: Seq<char>)
    requires
        lex(source).diagnostics.len() > 0,
    ensures
        started(v, source).interpreter == reported(v.interpreter, lex(source).diagnostics),
        started(v, source).interpreter.frames == v.interpreter.frames,
        started(v, source).interpreter.agenda == v.interpreter.agenda,
        started(v, source).interpreter.focus == v.interpreter.focus,
        started(v, source).interpreter.output == v.interpreter.output + rendered(
            lex(source).diagnostics,
        ),
        started(v, source).error_found,
        !started(v, source).preparing,
{
}

/// A chunk with a syntax error is not executed either: once the values of
/// its numerals are known it is parsed, and if that gives a diagnostic the
/// interpreter takes up nothing.
pub proof fn lemma_syntax_error_stops_chunk(v: Session)
    requires
        fill(v.tokens, v.numbers).len() >= v.tokens.len(),
        program(v.tokens, fill(v.tokens, v.numbers), 0).diagnostics.len() > 0,
    ensures
        prepared(v).interpreter == reported(
            v.interpreter,
            program(v.tokens, fill(v.tokens, v.numbers), 0).diagnostics,
        ),
        prepared(v).interpreter.frames == v.interpreter.frames,
        prepared(v).interpreter.agenda == v.interpreter.agenda,
        prepared(v).interpreter.focus == v.interpreter.focus,
        prepared(v).error_found,
        !prepared(v).preparing,
{
}

/// A runtime error does not mark the chunk as faulty: while the
/// interpreter runs, the mark stays as it is.
pub proof fn lemma_running_keeps_the_mark(v: Session, reply: ReplyView)
    requires
        !v.preparing,
    ensures
        resumed(v, reply).error_found == v.error_found,
        !resumed(v, reply).preparing,
{
}


/// The values of `tokens` as the host reads them: of a number token, the
/// number that its lexeme writes; of any other token, zero.
pub open spec fn values(host: Host, tokens: Seq<TokenView>) -> Seq<Number> {
    Seq::new(
        tokens.len(),
        |i: int|
            if tokens[i].ty == TokenType::Number {
                (host.numeral)(tokens[i].lexeme)
            } else {
                Number { bits: 0 }
            },
    )
}

/// Values that are those the host reads stay so when zeros are filled in,
/// up to the next number token.
pub proof fn lemma_fill(host: Host, tokens: Seq<TokenView>, numbers: Seq<Number>)
    requires
        numbers.len() <= tokens.len(),
        numbers == values(host, tokens).take(numbers.len() as int),
    ensures
        numbers.len() <= fill(tokens, numbers).len() <= tokens.len(),
        fill(tokens, numbers) == values(host, tokens).take(fill(tokens, numbers).len() as int),
        fill(tokens, numbers).len() < tokens.len() ==> tokens[fill(tokens, numbers).len() as int].ty
            == TokenType::Number,
    decreases tokens.len() - numbers.len(),
{
    if numbers.len() < tokens.len() && tokens[numbers.len() as int].ty != TokenType::Number {
        let next = numbers.push(Number { bits: 0 });
        assert(next =~= values(host, tokens).take(next.len() as int));
        lemma_fill(host, tokens, next);
    }
}

/// Filling in zeros does not shorten the values.
pub proof fn lemma_fill_grows(tokens: Seq<TokenView>, numbers: Seq<Number>)
    ensures
        numbers.len() <= fill(tokens, numbers).len(),
    decreases tokens.len() - numbers.len(),
{
    if numbers.len() < tokens.len() && tokens[numbers.len() as int].ty != TokenType::Number {
        lemma_fill_grows(tokens, numbers.push(Number { bits: 0 }));
    }
}

/// The session in which a chunk ends when the host answers every request
/// as `host` says.
#[verifier::opaque]
pub open spec fn conducted(host: Host, v: Session) -> Session
    decreases
            (if v.preparing {
                1nat
            } else {
                0nat
            }),
            v.tokens.len() - v.numbers.len(),
            cost(v.interpreter),
            urgency(v.interpreter),
{
    if v.preparing {
        if v.numbers.len() < v.tokens.len() {
            proof {
                lemma_fill_grows(
                    v.tokens,
                    v.numbers.push((host.numeral)(v.tokens[v.numbers.len() as int].lexeme)),
                );
            }
            conducted(host, resumed(v, reply_to(host, asked(v))))
        } else {
            v
        }
    } else if asked(v) is Arithmetic || asked(v) is Text {
        proof {
            lemma_answer_progress(host, v.interpreter);
            lemma_settled_cost(answered(v.interpreter, reply_to(host, asked(v))));
        }
        conducted(host, resumed(v, reply_to(host, asked(v))))
    } else {
        v
    }
}

/// While no chunk is in preparation, the session ends where the
/// interpreter finishes.
pub proof fn lemma_conducted_running(host: Host, v: Session)
    requires
        !v.preparing,
        !(awaited(v.interpreter) is Continue),
    ensures
        conducted(host, v) == (Session { interpreter: driven(host, v.interpreter), ..v }),
    decreases cost(v.interpreter), urgency(v.interpreter),
{
    reveal_with_fuel(conducted, 1);
    reveal_with_fuel(driven, 1);
    if asked(v) is Arithmetic || asked(v) is Text {
        let s = v.interpreter;
        let a = answered(s, reply_to(host, awaited(s)));
        lemma_answer_progress(host, s);
        lemma_settled_cost(a);
        lemma_driven_settled(host, a);
        lemma_conducted_running(host, resumed(v, reply_to(host, asked(v))));
    }
}

/// The preparation of a chunk, conducted by the host, ends with the chunk
/// parsed with the values that the host reads from its numerals, and, if
/// it has no syntax error, executed.
pub proof fn lemma_prepared(host: Host, v: Session)
    requires
        v.numbers.len() <= v.tokens.len(),
        v.numbers == values(host, v.tokens).take(v.numbers.len() as int),
        v.interpreter.focus is None,
        v.interpreter.agenda.len() == 0,
        program(v.tokens, values(host, v.tokens), 0).diagnostics.len() == 0,
    ensures
        conducted(host, prepared(v)).interpreter == resting(
            v.interpreter,
            Seq::empty(),
            execute_all(
                host,
                v.interpreter.repl,
                program(v.tokens, values(host, v.tokens), 0).statements,
                0,
                world(v.interpreter),
            ),
        ),
        !conducted(host, prepared(v)).preparing,
        conducted(host, prepared(v)).error_found == v.error_found,
    decreases v.tokens.len() - v.numbers.len(),
{
    let all = values(host, v.tokens);
    let numbers = fill(v.tokens, v.numbers);
    lemma_fill(host, v.tokens, v.numbers);
    let p = prepared(v);
    if numbers.len() < v.tokens.len() {
        reveal_with_fuel(conducted, 1);
        let n = (host.numeral)(v.tokens[numbers.len() as int].lexeme);
        let next = Session { numbers: numbers.push(n), ..p };
        assert(next.numbers =~= all.take(next.numbers.len() as int));
        assert(conducted(host, p) == conducted(host, prepared(next)));
        lemma_prepared(host, next);
    } else {
        assert(numbers =~= all);
        let statements = program(v.tokens, all, 0).statements;
        let loaded = State {
            agenda: v.interpreter.agenda + scheduled(statements),
            ..v.interpreter
        };
        lemma_settled_cost(loaded);
        lemma_conducted_running(host, p);
        lemma_driven_settled(host, loaded);
        lemma_interpret(host, v.interpreter, statements);
    }
}

/// What `run` comes to: a session whose interpreter has nothing under way
/// is given a chunk without lexical error, and the host answers as `host`
/// says. If the chunk, read with the host's values for its numerals, has
/// no syntax error either, the session ends with the statements of the
/// chunk executed in order, and nothing else done.
pub proof fn lemma_run(host: Host, v: Session, source: Seq<char>)
    requires
        v.interpreter.focus is None,
        v.interpreter.agenda.len() == 0,
        lex(source).diagnostics.len() == 0,
        program(lex(source).tokens, values(host, lex(source).tokens), 0).diagnostics.len() == 0,
    ensures
        conducted(host, started(v, source)).interpreter == resting(
            v.interpreter,
            Seq::empty(),
            execute_all(
                host,
                v.interpreter.repl,
                program(lex(source).tokens, values(host, lex(source).tokens), 0).statements,
                0,
                world(v.interpreter),
            ),
        ),
        !conducted(host, started(v, source)).preparing,
        !conducted(host, started(v, source)).error_found,
{
    let tokens = lex(source).tokens;
    if tokens.len() == 0 || tokens[0].ty == TokenType::Eof {
        let quiet = idle(Session { error_found: false, ..v });
        lemma_conducted_running(host, quiet);
        reveal_with_fuel(driven, 1);
        reveal_with_fuel(program, 1);
        reveal_with_fuel(execute_all, 1);
        assert(v.interpreter.agenda =~= Seq::empty());
    } else {
        let begun = Session {
            error_found: false,
            tokens,
            numbers: Seq::empty(),
            preparing: true,
            ..v
        };
        assert(begun.numbers =~= values(host, tokens).take(0));
        lemma_prepared(host, begun);
    }
}

} // verus!

//! The interpreter: a tree walker that the host drives step by step.
//!
//! The interpreter decides everything but what a processor decides about
//! doubles: the sum, difference, product or quotient of two numbers, and how
//! a number is written. Where it needs one of these it stops and says so in
//! a [`Request`]; the host computes the answer and hands it back in a
//! [`Reply`].
use vstd::prelude::*;
use crate::lang::environment::{Environment, defined, entered};
use crate::lang::expr::{Expr, ExprView, Literal, LogicalOp, slot_view};
use crate::lang::machine::{
    Cont,
    Evaluation,
    EvaluationView,
    Job,
    JobView,
    Reply,
    Request,
    Sink,
    SinkView,
    State,
    Turn,
    advance,
    answered,
    ascend,
    awaited,
    cont_views,
    cost,
    descend,
    initial,
    job_views,
    lemma_step_lowers_cost,
    run_job,
    scheduled,
    settle,
    settled,
    shows,
    text_views,
    turn,
};
use crate::lang::operators::{
    Control,
    ControlView,
    is_truthy,
    literal_text,
    undefined_variable,
    visit_binary_expr,
    visit_unary_expr,
    visit_variable_expr,
};
use crate::lang::stmt::{Stmt, lemma_block_view, stmt_views};

verus! {


/// How the interpreter is used: interactively or on a script.
#[derive(Debug, Clone, Copy, PartialEq, Eq, Structural)]
pub enum InterpreterMode {
    Repl,
    Script,
}

/// The settings of an interpreter.
#[derive(Debug, Clone, Copy)]
pub struct InterpreterProperties {
    pub mode: InterpreterMode,
}

impl Default for InterpreterProperties {
    fn default() -> (r: Self)
        ensures
            r.mode == InterpreterMode::Repl,
    {
        Self { mode: InterpreterMode::Repl }
    }
}

/// An interpreter: its scopes, the work that waits, the evaluation under
/// way and the output not yet collected.
pub struct Interpreter {
    environment: Environment,
    properties: InterpreterProperties,
    agenda: Vec<Job>,
    focus: Option<Evaluation>,
    output: Vec<String>,
}

impl View for Interpreter {
    type V = State;

    closed spec fn view(&self) -> State {
        State {
            frames: self.environment@,
            repl: self.properties.mode == InterpreterMode::Repl,
            agenda: job_views(self.agenda@),
            focus: match self.focus {
                Some(ev) => Some(ev@),
                None => None,
            },
            output: text_views(self.output@),
        }
    }
}

/// Adds to `agenda` the jobs that execute `body` in order.
fn schedule(agenda: &mut Vec<Job>, body: Vec<Stmt>)
    ensures
        job_views(final(agenda)@) == job_views(old(agenda)@) + scheduled(stmt_views(body@)),
{
    let mut body = body;
    let ghost all = stmt_views(body@);
    let ghost base = job_views(agenda@);
    assert(job_views(agenda@) =~= base + scheduled(all).take(0));
    assert(stmt_views(body@) =~= all.take(all.len() as int));
    while body.len() > 0
        invariant
            body@.len() <= all.len(),
            stmt_views(body@) == all.take(body@.len() as int),
            job_views(agenda@) == base + scheduled(all).take(all.len() - body@.len()),
        decreases body.len(),
    {
        let ghost before = body@;
        let ghost jobs = agenda@;
        match body.pop() {
            Some(stmt) => {
                agenda.push(Job::Execute(stmt));
                proof {
                    let n = before.len() as int;
                    assert(stmt_views(before)[n - 1] == stmt@);
                    assert(stmt_views(body@) =~= all.take(body@.len() as int));
                    assert(job_views(agenda@) =~= job_views(jobs).push(JobView::Execute(stmt@)));
                    assert(job_views(agenda@) =~= base + scheduled(all).take(all.len() - body@.len()));
                }
            },
            None => {},
        }
    }
    assert(scheduled(all).take(all.len() as int) =~= scheduled(all));
}

/// An assignment: it fails if no scope binds `name`; otherwise `value` is
/// evaluated, to be stored in `name`.
fn visit_assign_expr(
    environment: &Environment,
    name: String,
    value: Expr,
    pending: &mut Vec<Cont>,
) -> (control: Control)
    ensures
        descend(
            ExprView::Assign(name@, Box::new(value@)),
            cont_views(old(pending)@),
            environment@,
        ) == (Turn {
            control: control@,
            pending: cont_views(final(pending)@),
            frames: environment@,
        }),
{
    if !environment.contains(&name) {
        undefined_variable(&name)
    } else {
        let k = Cont::Store(name);
        pending.push(k);
        assert(cont_views(pending@) =~= cont_views(old(pending)@).push(k@));
        Control::Expr(value)
    }
}

/// One step into the expression `e`.
fn evaluate(environment: &Environment, e: Expr, pending: &mut Vec<Cont>) -> (control: Control)
    ensures
        descend(e@, cont_views(old(pending)@), environment@) == (Turn {
            control: control@,
            pending: cont_views(final(pending)@),
            frames: environment@,
        }),
{
    match e {
        Expr::Literal(v) => Control::Value(v),
        Expr::Grouping(inner) => Control::Expr(*inner),
        Expr::Variable(name) => visit_variable_expr(environment, name),
        Expr::Assign(name, value) => visit_assign_expr(environment, name, *value, pending),
        Expr::Logical(l, op, r) => {
            let k = Cont::Logical(op, *r);
            pending.push(k);
            assert(cont_views(pending@) =~= cont_views(old(pending)@).push(k@));
            Control::Expr(*l)
        },
        Expr::Unary(op, operand) => {
            let k = Cont::Unary(op);
            pending.push(k);
            assert(cont_views(pending@) =~= cont_views(old(pending)@).push(k@));
            Control::Expr(*operand)
        },
        Expr::Binary(l, op, r) => {
            let k = Cont::Right(op, *r);
            pending.push(k);
            assert(cont_views(pending@) =~= cont_views(old(pending)@).push(k@));
            Control::Expr(*l)
        },
    }
}

/// The value `v` handed to `k`; `pending` is what else waits.
fn hand_over(environment: &mut Environment, v: Literal, k: Cont, pending: &mut Vec<Cont>) -> (control:
    Control)
    ensures
        ascend(v@, k@, cont_views(old(pending)@), old(environment)@) == (Turn {
            control: control@,
            pending: cont_views(final(pending)@),
            frames: final(environment)@,
        }),
        final(environment)@.len() == old(environment)@.len(),
{
    match k {
        Cont::Right(op, r) => {
            let next = Cont::Apply(op, v);
            pending.push(next);
            assert(cont_views(pending@) =~= cont_views(old(pending)@).push(next@));
            Control::Expr(r)
        },
        Cont::Apply(op, l) => visit_binary_expr(l, op, v),
        Cont::Unary(op) => visit_unary_expr(op, v),
        Cont::Logical(op, r) => {
            let decides = match op {
                LogicalOp::Or => is_truthy(&v),
                LogicalOp::And => !is_truthy(&v),
            };
            if decides {
                Control::Value(v)
            } else {
                Control::Expr(r)
            }
        },
        Cont::Store(name) => {
            let _ = environment.assign(name, Some(v.clone()));
            Control::Value(v)
        },
    }
}

impl Interpreter {
    /// An interpreter always has its global scope.
    pub open spec fn wf(&self) -> bool {
        self@.frames.len() >= 1
    }

    /// An interpreter with an empty global scope and nothing to do.
    pub fn new(properties: InterpreterProperties) -> (r: Self)
        ensures
            r.wf(),
            r@ == initial(properties),
    {
        let r = Self {
            environment: Environment::new(),
            properties,
            agenda: Vec::new(),
            focus: None,
            output: Vec::new(),
        };
        assert(r@.agenda =~= Seq::empty());
        assert(r@.output =~= Seq::empty());
        r
    }

    /// Takes up `statements`: they are executed in order, before the work
    /// that waits already, by the calls of [`Interpreter::step`] or
    /// [`Interpreter::run`] that follow.
    pub fn interpret(&mut self, statements: &[Stmt])
        ensures
            final(self)@ == (State {
                agenda: old(self)@.agenda + scheduled(stmt_views(statements@)),
                ..old(self)@
            }),
    {
        let ghost all = stmt_views(statements@);
        let mut i: usize = statements.len();
        assert(self@.agenda =~= old(self)@.agenda + scheduled(all).take(0));
        while i > 0
            invariant
                i <= statements.len(),
                all == stmt_views(statements@),
                self@ == (State {
                    agenda: old(self)@.agenda + scheduled(all).take(statements.len() - i),
                    ..old(self)@
                }),
            decreases i,
        {
            i -= 1;
            let ghost before = self@.agenda;
            let job = Job::Execute(statements[i].clone());
            self.enqueue(job);
            assert(before.push(job@) =~= old(self)@.agenda + scheduled(all).take(
                statements.len() - i,
            ));
        }
        assert(scheduled(all).take(statements.len() as int) =~= scheduled(all));
    }

    /// What the interpreter asks of the host.
    pub fn request(&self) -> (r: Request)
        ensures
            r@ == awaited(self@),
    {
        match &self.focus {
            None => {
                if self.agenda.len() == 0 {
                    Request::Finished
                } else {
                    Request::Continue
                }
            },
            Some(ev) => match &ev.control {
                Control::Arith(op, a, b) => Request::Arithmetic(*op, *a, *b),
                Control::Concat(_, n) => Request::Text(*n),
                Control::Value(Literal::Number(n)) => {
                    if ev.pending.len() == 0 && self.shows(&ev.sink) {
                        Request::Text(*n)
                    } else {
                        Request::Continue
                    }
                },
                _ => Request::Continue,
            },
        }
    }

    /// Does what the host is called for: a step of the interpreter by
    /// itself where it asked for nothing, and `reply` taken in where it
    /// asked for something. Returns what it asks next.
    pub fn step(&mut self, reply: Reply) -> (r: Request)
        requires
            old(self).wf(),
        ensures
            final(self).wf(),
            final(self)@ == advance(old(self)@, reply@),
            r@ == awaited(final(self)@),
    {
        match self.request() {
            Request::Finished => {},
            Request::Continue => {
                match self.focus.take() {
                    None => self.run_job(),
                    Some(ev) => self.turn(ev),
                }
            },
            _ => self.answer(reply),
        }
        self.request()
    }

    /// Takes in `reply` as [`Interpreter::step`] does, and goes on by steps
    /// until the interpreter asks something of the host, or has finished.
    pub fn run(&mut self, reply: Reply) -> (r: Request)
        requires
            old(self).wf(),
        ensures
            final(self).wf(),
            final(self)@ == settled(advance(old(self)@, reply@)),
            r@ == awaited(final(self)@),
            !(r@ is Continue),
    {
        let mut request = self.step(reply);
        while matches!(request, Request::Continue)
            invariant
                self.wf(),
                request@ == awaited(self@),
                settled(self@) == settled(advance(old(self)@, reply@)),
            decreases cost(self@),
        {
            proof {
                lemma_step_lowers_cost(self@);
            }
            request = self.step(Reply::Nothing);
        }
        request
    }

    /// Hands over the lines of output produced since the last call.
    pub fn take_output(&mut self) -> (r: Vec<String>)
        ensures
            text_views(r@) == old(self)@.output,
            final(self)@ == (State { output: Seq::empty(), ..old(self)@ }),
    {
        let mut lines: Vec<String> = Vec::new();
        std::mem::swap(&mut lines, &mut self.output);
        assert(self@.output =~= Seq::empty());
        lines
    }

    /// The scopes.
    pub fn environment(&self) -> (r: &Environment)
        ensures
            r@ == self@.frames,
    {
        &self.environment
    }

    /// Whether a statement with this sink shows the value of its expression.
    fn shows(&self, sink: &Sink) -> (r: bool)
        ensures
            r == shows(sink@, self@.repl),
    {
        match sink {
            Sink::Show => true,
            Sink::Discard => self.properties.mode == InterpreterMode::Repl,
            _ => false,
        }
    }

    /// Adds a line to the output.
    pub fn print(&mut self, line: String)
        ensures
            final(self)@ == (State { output: old(self)@.output.push(line@), ..old(self)@ }),
    {
        self.output.push(line);
        assert(self@.output =~= old(self)@.output.push(line@));
    }

    /// Puts `job` on the agenda, as the next one.
    fn enqueue(&mut self, job: Job)
        ensures
            final(self)@ == (State { agenda: old(self)@.agenda.push(job@), ..old(self)@ }),
    {
        self.agenda.push(job);
        assert(self@.agenda =~= old(self)@.agenda.push(job@));
    }

    /// Begins the evaluation of `e` for a statement with the given sink.
    fn begin(&mut self, e: Expr, sink: Sink)
        ensures
            final(self)@ == (State {
                focus: Some(
                    EvaluationView {
                        control: ControlView::Expr(e@),
                        pending: Seq::empty(),
                        sink: sink@,
                    },
                ),
                ..old(self)@
            }),
    {
        let ev = Evaluation { control: Control::Expr(e), pending: Vec::new(), sink };
        assert(ev@.pending =~= Seq::empty());
        self.focus = Some(ev);
    }

    /// Takes up the next job; no evaluation is under way.
    fn run_job(&mut self)
        requires
            old(self).wf(),
            old(self)@.focus is None,
        ensures
            final(self).wf(),
            final(self)@ == run_job(old(self)@),
    {
        let ghost before = self@;
        let job = match self.agenda.pop() {
            Some(job) => job,
            None => {
                return ;
            },
        };
        assert(self@.agenda =~= before.agenda.drop_last());
        assert(job@ == before.agenda.last());
        assert(before.agenda =~= before.agenda.drop_last().push(before.agenda.last()));
        match job {
            Job::Leave => {
                self.environment.exit();
            },
            Job::Execute(stmt) => {
                self.execute(stmt);
            },
        }
    }

    /// Executes `stmt`, as far as it goes without an evaluation.
    fn execute(&mut self, stmt: Stmt)
        requires
            old(self).wf(),
            old(self)@.focus is None,
        ensures
            final(self).wf(),
            final(self)@ == run_job(
                State { agenda: old(self)@.agenda.push(JobView::Execute(stmt@)), ..old(self)@ },
            ),
    {
        let ghost before = self@;
        assert(before.agenda.push(JobView::Execute(stmt@)).drop_last() =~= before.agenda);
        match stmt {
            Stmt::Expr(e) => self.begin(*e, Sink::Discard),
            Stmt::Print(e) => self.visit_print_statement(*e),
            Stmt::Let(name, initializer) => self.visit_let_statement(name, initializer),
            Stmt::Block(body) => {
                proof {
                    lemma_block_view(body);
                }
                self.visit_block_statement(body)
            },
            Stmt::If(c, t, e) => self.begin(*c, Sink::Choose(t, e)),
        }
    }

    /// A print statement: its expression is evaluated, to be shown.
    fn visit_print_statement(&mut self, e: Expr)
        ensures
            final(self)@ == (State {
                focus: Some(
                    EvaluationView {
                        control: ControlView::Expr(e@),
                        pending: Seq::empty(),
                        sink: SinkView::Show,
                    },
                ),
                ..old(self)@
            }),
    {
        self.begin(e, Sink::Show)
    }

    /// A declaration: without an initializer the variable is declared
    /// without content; with one, the initializer is evaluated first.
    fn visit_let_statement(&mut self, name: String, value: Option<Box<Expr>>)
        requires
            old(self).wf(),
        ensures
            final(self).wf(),
            final(self)@ == match value {
                Some(e) => State {
                    focus: Some(
                        EvaluationView {
                            control: ControlView::Expr(e@),
                            pending: Seq::empty(),
                            sink: SinkView::Bind(name@),
                        },
                    ),
                    ..old(self)@
                },
                None => State { frames: defined(old(self)@.frames, name@, None), ..old(self)@ },
            },
    {
        match value {
            Some(e) => self.begin(*e, Sink::Bind(name)),
            None => self.define_variable(name, None),
        }
    }

    /// A block: a scope is entered, and the statements of the block are
    /// put on the agenda, with the leaving of the scope after them.
    fn visit_block_statement(&mut self, statements: Vec<Stmt>)
        requires
            old(self).wf(),
        ensures
            final(self).wf(),
            final(self)@ == (State {
                frames: entered(old(self)@.frames),
                agenda: old(self)@.agenda.push(JobView::Leave) + scheduled(stmt_views(statements@)),
                ..old(self)@
            }),
    {
        self.environment.enter();
        self.enqueue(Job::Leave);
        schedule(&mut self.agenda, statements);
    }

    /// Declares `name` in the innermost scope.
    fn define_variable(&mut self, name: String, value: Option<Literal>)
        requires
            old(self).wf(),
        ensures
            final(self).wf(),
            final(self)@ == (State {
                frames: defined(old(self)@.frames, name@, slot_view(value)),
                ..old(self)@
            }),
    {
        self.environment.define(name, value);
    }

    /// One turn of the evaluation `ev`, which was taken out of the focus.
    fn turn(&mut self, ev: Evaluation)
        requires
            old(self).wf(),
            old(self)@.focus is None,
        ensures
            final(self).wf(),
            final(self)@ == turn(State { focus: Some(ev@), ..old(self)@ }, ev@),
    {
        let Evaluation { control, pending, sink } = ev;
        let mut pending = pending;
        match control {
            Control::Failure(error) => {
                self.print(error.report());
                match sink {
                    Sink::Bind(name) => self.define_variable(name, None),
                    _ => {},
                }
            },
            Control::Expr(e) => {
                let control = evaluate(&self.environment, e, &mut pending);
                self.focus = Some(Evaluation { control, pending, sink });
            },
            Control::Value(v) => {
                let ghost waiting = cont_views(pending@);
                match pending.pop() {
                    Some(k) => {
                        assert(cont_views(pending@) =~= waiting.drop_last());
                        assert(k@ == waiting.last());
                        let control = hand_over(&mut self.environment, v, k, &mut pending);
                        self.focus = Some(Evaluation { control, pending, sink });
                    },
                    None => {
                        assert(waiting =~= Seq::empty());
                        self.settle(sink, v);
                    },
                }
            },
            other => {
                self.focus = Some(Evaluation { control: other, pending, sink });
            },
        }
    }

    /// The value `v` of a statement's expression handed to the statement.
    fn settle(&mut self, sink: Sink, v: Literal)
        requires
            old(self).wf(),
            old(self)@.focus is None,
        ensures
            final(self).wf(),
            final(self)@ == settle(
                State {
                    focus: Some(
                        EvaluationView {
                            control: ControlView::Value(v@),
                            pending: Seq::empty(),
                            sink: sink@,
                        },
                    ),
                    ..old(self)@
                },
                sink@,
                v@,
            ),
    {
        match sink {
            Sink::Bind(name) => self.define_variable(name, Some(v)),
            Sink::Choose(t, e) => {
                if is_truthy(&v) {
                    self.enqueue(Job::Execute(*t));
                } else {
                    match e {
                        Some(other) => self.enqueue(Job::Execute(*other)),
                        None => {},
                    }
                }
            },
            other => {
                if self.shows(&other) {
                    match literal_text(&v) {
                        Some(t) => self.print(t),
                        None => {
                            let ev = Evaluation {
                                control: Control::Value(v),
                                pending: Vec::new(),
                                sink: other,
                            };
                            assert(ev@.pending =~= Seq::empty());
                            self.focus = Some(ev);
                        },
                    }
                }
            },
        }
    }

    /// Takes in the host's answer to what the interpreter asked.
    fn answer(&mut self, reply: Reply)
        ensures
            final(self)@ == answered(old(self)@, reply@),
            final(self)@.frames == old(self)@.frames,
    {
        let ev = match self.focus.take() {
            Some(ev) => ev,
            None => {
                return ;
            },
        };
        let Evaluation { control, pending, sink } = ev;
        match control {
            Control::Arith(op, a, b) => {
                let control = match reply {
                    Reply::Number(n) => Control::Value(Literal::Number(n)),
                    _ => Control::Arith(op, a, b),
                };
                self.focus = Some(Evaluation { control, pending, sink });
            },
            Control::Concat(t, n) => {
                let control = match reply {
                    Reply::Text(x) => {
                        let mut joined = t;
                        joined.append(x.as_str());
                        Control::Value(Literal::String(joined))
                    },
                    _ => Control::Concat(t, n),
                };
                self.focus = Some(Evaluation { control, pending, sink });
            },
            Control::Value(v) => {
                match reply {
                    Reply::Text(x) => self.print(x),
                    _ => {
                        self.focus = Some(Evaluation { control: Control::Value(v), pending, sink });
                    },
                }
            },
            other => {
                self.focus = Some(Evaluation { control: other, pending, sink });
            },
        }
    }
}

} // verus!

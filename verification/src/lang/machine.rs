//! The interpreter as a machine: its states, the steps it takes by itself,
//! and what it asks of the host and takes from it.
use vstd::prelude::*;
use crate::lang::environment::{Frame, assigned, defined, entered, resolve};
use crate::lang::expr::{BinaryOp, Expr, ExprView, Literal, LiteralView, LogicalOp, UnaryOp};
use crate::lang::interpreter::{InterpreterMode, InterpreterProperties};
use crate::lang::number::Number;
use crate::lang::operators::{
    Control,
    ControlView,
    binary,
    failure,
    plain_text,
    quoted,
    truthy,
    unary,
    variable,
};
use crate::lang::runtime_error::{ErrorKind, RuntimeErrorView};
use crate::lang::stmt::{Stmt, StmtView};

verus! {

/// What waits for the value of an expression that is a part of a larger one.
pub enum Cont {
    /// The left operand of a binary operator arrives; the right one is
    /// still to be evaluated.
    Right(BinaryOp, Expr),
    /// The right operand of a binary operator arrives; the left one is kept
    /// here.
    Apply(BinaryOp, Literal),
    /// The operand of a unary operator arrives.
    Unary(UnaryOp),
    /// The left operand of `and` or `or` arrives; the right one is evaluated
    /// only if the left one does not decide.
    Logical(LogicalOp, Expr),
    /// The value to assign to a variable arrives.
    Store(String),
}

/// The mathematical value of a [`Cont`].
pub enum ContView {
    Right(BinaryOp, ExprView),
    Apply(BinaryOp, LiteralView),
    Unary(UnaryOp),
    Logical(LogicalOp, ExprView),
    Store(Seq<char>),
}

impl View for Cont {
    type V = ContView;

    open spec fn view(&self) -> ContView {
        match self {
            Cont::Right(op, e) => ContView::Right(*op, e@),
            Cont::Apply(op, v) => ContView::Apply(*op, v@),
            Cont::Unary(op) => ContView::Unary(*op),
            Cont::Logical(op, e) => ContView::Logical(*op, e@),
            Cont::Store(name) => ContView::Store(name@),
        }
    }
}

/// What a statement does with the value of its expression.
pub enum Sink {
    /// An expression statement: the value is shown in interactive mode and
    /// dropped otherwise.
    Discard,
    /// A print statement: the value is shown.
    Show,
    /// A declaration: the value becomes the variable's content.
    Bind(String),
    /// A conditional: the value chooses the branch.
    Choose(Box<Stmt>, Option<Box<Stmt>>),
}

/// The mathematical value of a [`Sink`].
pub enum SinkView {
    Discard,
    Show,
    Bind(Seq<char>),
    Choose(StmtView, Option<StmtView>),
}

impl View for Sink {
    type V = SinkView;

    open spec fn view(&self) -> SinkView {
        match self {
            Sink::Discard => SinkView::Discard,
            Sink::Show => SinkView::Show,
            Sink::Bind(name) => SinkView::Bind(name@),
            Sink::Choose(t, e) => SinkView::Choose(
                t.model(),
                match e {
                    Some(s) => Some(s.model()),
                    None => None,
                },
            ),
        }
    }
}

/// The evaluation of one statement's expression.
pub struct Evaluation {
    pub control: Control,
    pub pending: Vec<Cont>,
    pub sink: Sink,
}

/// The mathematical value of an [`Evaluation`].
pub struct EvaluationView {
    pub control: ControlView,
    pub pending: Seq<ContView>,
    pub sink: SinkView,
}

/// The views of a sequence of continuations.
pub open spec fn cont_views(conts: Seq<Cont>) -> Seq<ContView> {
    Seq::new(conts.len(), |i: int| conts[i]@)
}

impl View for Evaluation {
    type V = EvaluationView;

    open spec fn view(&self) -> EvaluationView {
        EvaluationView {
            control: self.control@,
            pending: cont_views(self.pending@),
            sink: self.sink@,
        }
    }
}

/// A piece of work that waits for its turn.
pub enum Job {
    /// A statement to execute.
    Execute(Stmt),
    /// The end of a block: its scope is left.
    Leave,
}

/// The mathematical value of a [`Job`].
pub enum JobView {
    Execute(StmtView),
    Leave,
}

impl View for Job {
    type V = JobView;

    open spec fn view(&self) -> JobView {
        match self {
            Job::Execute(s) => JobView::Execute(s@),
            Job::Leave => JobView::Leave,
        }
    }
}

/// The views of a sequence of jobs.
pub open spec fn job_views(jobs: Seq<Job>) -> Seq<JobView> {
    Seq::new(jobs.len(), |i: int| jobs[i]@)
}

/// The views of a sequence of texts.
pub open spec fn text_views(lines: Seq<String>) -> Seq<Seq<char>> {
    Seq::new(lines.len(), |i: int| lines[i]@)
}

/// What the host is asked to do next.
#[derive(Debug, PartialEq)]
pub enum Request {
    /// Nothing: all the work is done.
    Finished,
    /// Nothing but to call again: there is more work.
    Continue,
    /// To read the numeral and answer with the number it writes.
    Numeral(String),
    /// To apply the arithmetic operator to the two numbers and answer with
    /// the result.
    Arithmetic(BinaryOp, Number, Number),
    /// To write the number and answer with the text.
    Text(Number),
}

/// The mathematical value of a [`Request`].
pub enum RequestView {
    Finished,
    Continue,
    Numeral(Seq<char>),
    Arithmetic(BinaryOp, Number, Number),
    Text(Number),
}

impl View for Request {
    type V = RequestView;

    open spec fn view(&self) -> RequestView {
        match self {
            Request::Finished => RequestView::Finished,
            Request::Continue => RequestView::Continue,
            Request::Numeral(s) => RequestView::Numeral(s@),
            Request::Arithmetic(op, a, b) => RequestView::Arithmetic(*op, *a, *b),
            Request::Text(n) => RequestView::Text(*n),
        }
    }
}

/// What the host answers.
#[derive(Debug, PartialEq)]
pub enum Reply {
    /// Nothing was asked.
    Nothing,
    /// The number asked for.
    Number(Number),
    /// The text asked for.
    Text(String),
}

/// The mathematical value of a [`Reply`].
pub enum ReplyView {
    Nothing,
    Number(Number),
    Text(Seq<char>),
}

impl View for Reply {
    type V = ReplyView;

    open spec fn view(&self) -> ReplyView {
        match self {
            Reply::Nothing => ReplyView::Nothing,
            Reply::Number(n) => ReplyView::Number(*n),
            Reply::Text(s) => ReplyView::Text(s@),
        }
    }
}

/// The state of an interpreter.
pub struct State {
    /// The scopes, the global one first.
    pub frames: Seq<Frame>,
    /// Whether the values of expression statements are shown.
    pub repl: bool,
    /// The jobs that wait, the next one last.
    pub agenda: Seq<JobView>,
    /// The evaluation under way, if there is one.
    pub focus: Option<EvaluationView>,
    /// The lines of output that the host has not collected yet.
    pub output: Seq<Seq<char>>,
}

/// The state of a new interpreter: an empty global scope, nothing to do.
pub open spec fn initial(properties: InterpreterProperties) -> State {
    State {
        frames: seq![Map::<Seq<char>, Option<LiteralView>>::empty()],
        repl: properties.mode == InterpreterMode::Repl,
        agenda: Seq::empty(),
        focus: None,
        output: Seq::empty(),
    }
}

/// The chain without its innermost scope; the global scope stays.
pub open spec fn left(frames: Seq<Frame>) -> Seq<Frame> {
    if frames.len() > 1 {
        frames.drop_last()
    } else {
        frames
    }
}

/// The jobs that execute `body` in order: the first statement comes last,
/// where the next job is taken from.
pub open spec fn scheduled(body: Seq<StmtView>) -> Seq<JobView> {
    Seq::new(body.len(), |i: int| JobView::Execute(body[body.len() - 1 - i]))
}

/// One turn of an evaluation: what the expression has come to, what waits
/// for its value, and the scopes.
pub struct Turn {
    pub control: ControlView,
    pub pending: Seq<ContView>,
    pub frames: Seq<Frame>,
}

/// One step into the expression `e`.
pub open spec fn descend(e: ExprView, pending: Seq<ContView>, frames: Seq<Frame>) -> Turn {
    match e {
        ExprView::Literal(v) => Turn { control: ControlView::Value(v), pending, frames },
        ExprView::Grouping(inner) => Turn { control: ControlView::Expr(*inner), pending, frames },
        ExprView::Variable(name) => Turn { control: variable(frames, name), pending, frames },
        ExprView::Assign(name, value) => if resolve(frames, name) is None {
            Turn { control: failure(ErrorKind::UndefinedVariable, quoted(name)), pending, frames }
        } else {
            Turn {
                control: ControlView::Expr(*value),
                pending: pending.push(ContView::Store(name)),
                frames,
            }
        },
        ExprView::Logical(l, op, r) => Turn {
            control: ControlView::Expr(*l),
            pending: pending.push(ContView::Logical(op, *r)),
            frames,
        },
        ExprView::Unary(op, operand) => Turn {
            control: ControlView::Expr(*operand),
            pending: pending.push(ContView::Unary(op)),
            frames,
        },
        ExprView::Binary(l, op, r) => Turn {
            control: ControlView::Expr(*l),
            pending: pending.push(ContView::Right(op, *r)),
            frames,
        },
    }
}

/// The value `v` handed to `k`, the innermost of what waits; `rest` is
/// what else waits.
pub open spec fn ascend(v: LiteralView, k: ContView, rest: Seq<ContView>, frames: Seq<Frame>) -> Turn {
    match k {
        ContView::Right(op, r) => Turn {
            control: ControlView::Expr(r),
            pending: rest.push(ContView::Apply(op, v)),
            frames,
        },
        ContView::Apply(op, l) => Turn { control: binary(l, op, v), pending: rest, frames },
        ContView::Unary(op) => Turn { control: unary(op, v), pending: rest, frames },
        ContView::Logical(op, r) => if (op == LogicalOp::Or) == truthy(v) {
            Turn { control: ControlView::Value(v), pending: rest, frames }
        } else {
            Turn { control: ControlView::Expr(r), pending: rest, frames }
        },
        ContView::Store(name) => Turn {
            control: ControlView::Value(v),
            pending: rest,
            frames: assigned(frames, name, Some(v)),
        },
    }
}

/// Whether a statement with this sink shows the value of its expression.
pub open spec fn shows(sink: SinkView, repl: bool) -> bool {
    sink is Show || (sink is Discard && repl)
}

/// The value `v` of a statement's expression handed to the statement.
pub open spec fn settle(s: State, sink: SinkView, v: LiteralView) -> State {
    match sink {
        SinkView::Bind(name) => State {
            frames: defined(s.frames, name, Some(v)),
            focus: None,
            ..s
        },
        SinkView::Choose(t, e) => State {
            agenda: if truthy(v) {
                s.agenda.push(JobView::Execute(t))
            } else {
                match e {
                    Some(other) => s.agenda.push(JobView::Execute(other)),
                    None => s.agenda,
                }
            },
            focus: None,
            ..s
        },
        _ => if shows(sink, s.repl) {
            match plain_text(v) {
                Some(t) => State { output: s.output.push(t), focus: None, ..s },
                None => s,
            }
        } else {
            State { focus: None, ..s }
        },
    }
}

/// A runtime error ends the evaluation: it is reported, and a variable
/// that was being declared stays without content.
pub open spec fn abort(s: State, sink: SinkView, error: RuntimeErrorView) -> State {
    State {
        frames: match sink {
            SinkView::Bind(name) => defined(s.frames, name, None),
            _ => s.frames,
        },
        focus: None,
        output: s.output.push(error.report()),
        ..s
    }
}

/// The next job is taken up; no evaluation is under way.
pub open spec fn run_job(s: State) -> State {
    if s.agenda.len() == 0 {
        s
    } else {
        let rest = s.agenda.drop_last();
        let begin = |e: ExprView, sink: SinkView|
            State {
                agenda: rest,
                focus: Some(
                    EvaluationView { control: ControlView::Expr(e), pending: Seq::empty(), sink },
                ),
                ..s
            };
        match s.agenda.last() {
            JobView::Leave => State { frames: left(s.frames), agenda: rest, ..s },
            JobView::Execute(stmt) => match stmt {
                StmtView::Expr(e) => begin(e, SinkView::Discard),
                StmtView::Print(e) => begin(e, SinkView::Show),
                StmtView::Let(name, None) => State {
                    frames: defined(s.frames, name, None),
                    agenda: rest,
                    ..s
                },
                StmtView::Let(name, Some(e)) => begin(e, SinkView::Bind(name)),
                StmtView::Block(body) => State {
                    frames: entered(s.frames),
                    agenda: rest.push(JobView::Leave) + scheduled(body),
                    ..s
                },
                StmtView::If(c, t, e) => begin(
                    c,
                    SinkView::Choose(
                        *t,
                        match e {
                            Some(other) => Some(*other),
                            None => None,
                        },
                    ),
                ),
            },
        }
    }
}

/// One turn of the evaluation under way.
pub open spec fn turn(s: State, ev: EvaluationView) -> State {
    match ev.control {
        ControlView::Failure(error) => abort(s, ev.sink, error),
        ControlView::Expr(e) => {
            let t = descend(e, ev.pending, s.frames);
            State {
                frames: t.frames,
                focus: Some(EvaluationView { control: t.control, pending: t.pending, sink: ev.sink }),
                ..s
            }
        },
        ControlView::Value(v) => if ev.pending.len() > 0 {
            let t = ascend(v, ev.pending.last(), ev.pending.drop_last(), s.frames);
            State {
                frames: t.frames,
                focus: Some(EvaluationView { control: t.control, pending: t.pending, sink: ev.sink }),
                ..s
            }
        } else {
            settle(s, ev.sink, v)
        },
        _ => s,
    }
}

/// One step of the interpreter by itself.
pub open spec fn step(s: State) -> State {
    match s.focus {
        None => run_job(s),
        Some(ev) => turn(s, ev),
    }
}

/// What the interpreter in state `s` asks of the host.
pub open spec fn awaited(s: State) -> RequestView {
    match s.focus {
        None => if s.agenda.len() == 0 {
            RequestView::Finished
        } else {
            RequestView::Continue
        },
        Some(ev) => match ev.control {
            ControlView::Arith(op, a, b) => RequestView::Arithmetic(op, a, b),
            ControlView::Concat(_, n) => RequestView::Text(n),
            ControlView::Value(LiteralView::Number(n)) => if ev.pending.len() == 0 && shows(
                ev.sink,
                s.repl,
            ) {
                RequestView::Text(n)
            } else {
                RequestView::Continue
            },
            _ => RequestView::Continue,
        },
    }
}

/// The state after the host's answer to what `s` asks. An answer of the
/// wrong kind changes nothing.
pub open spec fn answered(s: State, reply: ReplyView) -> State {
    match s.focus {
        None => s,
        Some(ev) => match (ev.control, reply) {
            (ControlView::Arith(_, _, _), ReplyView::Number(n)) => State {
                focus: Some(
                    EvaluationView { control: ControlView::Value(LiteralView::Number(n)), ..ev },
                ),
                ..s
            },
            (ControlView::Concat(t, _), ReplyView::Text(x)) => State {
                focus: Some(
                    EvaluationView { control: ControlView::Value(LiteralView::String(t + x)), ..ev },
                ),
                ..s
            },
            (ControlView::Value(_), ReplyView::Text(x)) => State {
                focus: None,
                output: s.output.push(x),
                ..s
            },
            _ => s,
        },
    }
}

/// The state after one call of the host: a step of the interpreter by
/// itself where it asks for nothing, the host's answer taken in where it
/// asks for something.
pub open spec fn advance(s: State, reply: ReplyView) -> State {
    match awaited(s) {
        RequestView::Finished => s,
        RequestView::Continue => step(s),
        _ => answered(s, reply),
    }
}

/// A bound on the steps that the evaluation of `e` takes.
pub open spec fn expr_cost(e: ExprView) -> nat
    decreases e,
{
    match e {
        ExprView::Literal(_) => 1,
        ExprView::Variable(_) => 1,
        ExprView::Grouping(inner) => 1 + expr_cost(*inner),
        ExprView::Unary(_, operand) => 2 + expr_cost(*operand),
        ExprView::Binary(l, _, r) => 3 + expr_cost(*l) + expr_cost(*r),
        ExprView::Logical(l, _, r) => 2 + expr_cost(*l) + expr_cost(*r),
        ExprView::Assign(_, value) => 2 + expr_cost(*value),
    }
}

/// A bound on the steps that the execution of `s` takes.
pub open spec fn stmt_cost(s: StmtView) -> nat
    decreases s, 0nat,
{
    match s {
        StmtView::Expr(e) => 2 + expr_cost(e),
        StmtView::Print(e) => 2 + expr_cost(e),
        StmtView::Let(_, None) => 1,
        StmtView::Let(_, Some(e)) => 2 + expr_cost(e),
        StmtView::Block(body) => 2 + body_cost(body, 0),
        StmtView::If(c, t, e) => 3 + expr_cost(c) + stmt_cost(*t) + match e {
            Some(other) => stmt_cost(*other),
            None => 0,
        },
    }
}

/// A bound on the steps that the execution of `body[from..]` takes.
pub open spec fn body_cost(body: Seq<StmtView>, from: int) -> nat
    decreases body, body.len() - from,
{
    if from < 0 || from >= body.len() {
        0
    } else {
        stmt_cost(body[from]) + body_cost(body, from + 1)
    }
}

/// A bound on the steps that `k` takes once its value arrives.
pub open spec fn cont_cost(k: ContView) -> nat {
    match k {
        ContView::Right(_, r) => 2 + expr_cost(r),
        ContView::Apply(_, _) => 1,
        ContView::Unary(_) => 1,
        ContView::Logical(_, r) => 1 + expr_cost(r),
        ContView::Store(_) => 1,
    }
}

/// The sum of the costs of what waits for a value.
pub open spec fn pending_cost(pending: Seq<ContView>) -> nat
    decreases pending.len(),
{
    if pending.len() == 0 {
        0
    } else {
        pending_cost(pending.drop_last()) + cont_cost(pending.last())
    }
}

/// A bound on the steps that a statement takes once the value of its
/// expression arrives.
pub open spec fn sink_cost(sink: SinkView) -> nat {
    match sink {
        SinkView::Choose(t, e) => 1 + stmt_cost(t) + match e {
            Some(other) => stmt_cost(other),
            None => 0,
        },
        _ => 1,
    }
}

/// A bound on the steps that a job takes.
pub open spec fn job_cost(job: JobView) -> nat {
    match job {
        JobView::Leave => 1,
        JobView::Execute(s) => stmt_cost(s),
    }
}

/// The sum of the costs of the jobs that wait.
pub open spec fn agenda_cost(agenda: Seq<JobView>) -> nat
    decreases agenda.len(),
{
    if agenda.len() == 0 {
        0
    } else {
        agenda_cost(agenda.drop_last()) + job_cost(agenda.last())
    }
}

/// A bound on the steps that the interpreter takes by itself from `s` on:
/// the answers of the host do not raise it, and every step lowers it.
pub open spec fn cost(s: State) -> nat {
    agenda_cost(s.agenda) + match s.focus {
        None => 0,
        Some(ev) => pending_cost(ev.pending) + sink_cost(ev.sink) + match ev.control {
            ControlView::Expr(e) => expr_cost(e),
            _ => 0,
        },
    }
}

/// A job put on the agenda adds its cost.
proof fn lemma_agenda_push(agenda: Seq<JobView>, job: JobView)
    ensures
        agenda_cost(agenda.push(job)) == agenda_cost(agenda) + job_cost(job),
{
    assert(agenda.push(job).drop_last() =~= agenda);
}

/// A continuation that is made to wait adds its cost.
proof fn lemma_pending_push(pending: Seq<ContView>, k: ContView)
    ensures
        pending_cost(pending.push(k)) == pending_cost(pending) + cont_cost(k),
{
    assert(pending.push(k).drop_last() =~= pending);
}

/// The jobs that execute the last `count` statements of a block add the
/// cost of these statements.
proof fn lemma_agenda_scheduled(agenda: Seq<JobView>, body: Seq<StmtView>, count: int)
    requires
        0 <= count <= body.len(),
    ensures
        agenda_cost(agenda + scheduled(body).take(count)) == agenda_cost(agenda) + body_cost(
            body,
            body.len() - count,
        ),
    decreases count,
{
    if count == 0 {
        assert(agenda + scheduled(body).take(0) =~= agenda);
    } else {
        lemma_agenda_scheduled(agenda, body, count - 1);
        let shorter = agenda + scheduled(body).take(count - 1);
        let job = JobView::Execute(body[body.len() - count]);
        assert(agenda + scheduled(body).take(count) =~= shorter.push(job));
        lemma_agenda_push(shorter, job);
    }
}

/// Every step that the interpreter takes by itself lowers its cost: it
/// cannot go on for ever without the host.
pub proof fn lemma_step_lowers_cost(s: State)
    requires
        awaited(s) is Continue,
    ensures
        cost(step(s)) < cost(s),
{
    match s.focus {
        None => {
            let rest = s.agenda.drop_last();
            assert(s.agenda =~= rest.push(s.agenda.last()));
            match s.agenda.last() {
                JobView::Leave => {},
                JobView::Execute(stmt) => {
                    assert(pending_cost(Seq::<ContView>::empty()) == 0);
                    match stmt {
                        StmtView::Block(body) => {
                            lemma_agenda_push(rest, JobView::Leave);
                            lemma_agenda_scheduled(rest.push(JobView::Leave), body, body.len() as int);
                            assert(scheduled(body).take(body.len() as int) =~= scheduled(body));
                        },
                        _ => {},
                    }
                },
            }
        },
        Some(ev) => {
            match ev.control {
                ControlView::Expr(e) => {
                    match e {
                        ExprView::Assign(name, value) => {
                            lemma_pending_push(ev.pending, ContView::Store(name));
                        },
                        ExprView::Logical(l, op, r) => {
                            lemma_pending_push(ev.pending, ContView::Logical(op, *r));
                        },
                        ExprView::Unary(op, operand) => {
                            lemma_pending_push(ev.pending, ContView::Unary(op));
                        },
                        ExprView::Binary(l, op, r) => {
                            lemma_pending_push(ev.pending, ContView::Right(op, *r));
                        },
                        _ => {},
                    }
                },
                ControlView::Value(v) => {
                    if ev.pending.len() > 0 {
                        let rest = ev.pending.drop_last();
                        match ev.pending.last() {
                            ContView::Right(op, r) => {
                                lemma_pending_push(rest, ContView::Apply(op, v));
                            },
                            _ => {},
                        }
                    } else {
                        match ev.sink {
                            SinkView::Choose(t, e) => {
                                lemma_agenda_push(s.agenda, JobView::Execute(t));
                                match e {
                                    Some(other) => {
                                        lemma_agenda_push(s.agenda, JobView::Execute(other));
                                    },
                                    None => {},
                                }
                            },
                            _ => {},
                        }
                    }
                },
                _ => {},
            }
        },
    }
}

/// An answer of the host does not raise the cost.
pub proof fn lemma_answer_keeps_cost(s: State, reply: ReplyView)
    ensures
        cost(answered(s, reply)) <= cost(s),
{
}

/// An answer that answers nothing changes nothing.
pub proof fn lemma_no_answer(s: State)
    ensures
        settled(advance(s, ReplyView::Nothing)) == settled(s),
        !(awaited(settled(s)) is Continue),
    decreases cost(s),
{
    if awaited(s) is Continue {
        lemma_step_lowers_cost(s);
        lemma_no_answer(step(s));
    }
}

/// The state that the interpreter comes to by itself from `s`: the first
/// in which it asks something of the host, or has finished.
pub open spec fn settled(s: State) -> State
    decreases cost(s),
{
    if awaited(s) is Continue {
        proof {
            lemma_step_lowers_cost(s);
        }
        settled(step(s))
    } else {
        s
    }
}

} // verus!

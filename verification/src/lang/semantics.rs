//! What a program means: the values of expressions and the effects of
//! statements, given what the host answers, and the proof that the
//! interpreter, driven by that host, computes them.
use vstd::prelude::*;
use crate::lang::environment::{
    Frame,
    assigned,
    defined,
    entered,
    lemma_assign_through,
    lemma_assigned_lookup,
    lemma_define,
    lemma_shadowing,
    lookup,
    resolve,
};
use crate::lang::expr::{BinaryOp, ExprView, LiteralView, LogicalOp};
use crate::lang::machine::{
    ContView,
    EvaluationView,
    JobView,
    ReplyView,
    RequestView,
    SinkView,
    State,
    abort,
    answered,
    awaited,
    cost,
    left,
    lemma_step_lowers_cost,
    scheduled,
    settled,
    shows,
    step,
};
use crate::lang::operators::{
    ControlView,
    binary,
    failure,
    not_initialized,
    plain_text,
    quoted,
    truthy,
    unary,
    variable,
};
use crate::lang::number::Number;
use crate::lang::runtime_error::{ErrorKind, RuntimeErrorView};
use crate::lang::stmt::StmtView;

verus! {

/// What the host computes: the number that a numeral writes, the
/// arithmetic of numbers, and how a number is written.
pub struct Host {
    pub numeral: spec_fn(Seq<char>) -> Number,
    pub arithmetic: spec_fn(BinaryOp, Number, Number) -> Number,
    pub text: spec_fn(Number) -> Seq<char>,
}

/// The value of an expression, or the error it fails with, and the scopes
/// after its evaluation.
pub struct Evaluated {
    pub outcome: Result<LiteralView, RuntimeErrorView>,
    pub frames: Seq<Frame>,
}

/// What an applied operator comes to, once the host has done its part.
pub open spec fn completed(host: Host, control: ControlView) -> Result<
    LiteralView,
    RuntimeErrorView,
> {
    match control {
        ControlView::Value(v) => Ok(v),
        ControlView::Arith(op, a, b) => Ok(LiteralView::Number((host.arithmetic)(op, a, b))),
        ControlView::Concat(t, n) => Ok(LiteralView::String(t + (host.text)(n))),
        ControlView::Failure(error) => Err(error),
        ControlView::Expr(_) => Ok(LiteralView::Null),
    }
}

/// The evaluation of `e` in the scopes `frames`.
///
/// A literal is its value and a grouping that of its content. A variable
/// is read. An assignment fails if the variable is bound nowhere, before
/// its right side is evaluated; otherwise the value of the right side is
/// written and is the value of the assignment. `or` is its left operand if
/// that counts as true and its right operand otherwise; `and` is its left
/// operand if that does not count as true, and its right operand
/// otherwise. A unary operator is applied to the value of its operand, a
/// binary one to the values of both operands, the left one evaluated first.
/// An error in a part is the error of the whole.
pub open spec fn eval(host: Host, e: ExprView, frames: Seq<Frame>) -> Evaluated
    decreases e,
{
    match e {
        ExprView::Literal(v) => Evaluated { outcome: Ok(v), frames },
        ExprView::Grouping(inner) => eval(host, *inner, frames),
        ExprView::Variable(name) => Evaluated {
            outcome: completed(host, variable(frames, name)),
            frames,
        },
        ExprView::Assign(name, value) => if resolve(frames, name) is None {
            Evaluated {
                outcome: Err(
                    RuntimeErrorView { what: quoted(name), kind: ErrorKind::UndefinedVariable },
                ),
                frames,
            }
        } else {
            let right = eval(host, *value, frames);
            match right.outcome {
                Ok(v) => Evaluated { outcome: Ok(v), frames: assigned(right.frames, name, Some(v)) },
                Err(_) => right,
            }
        },
        ExprView::Logical(l, op, r) => {
            let first = eval(host, *l, frames);
            match first.outcome {
                Ok(v) => if (op == LogicalOp::Or) == truthy(v) {
                    first
                } else {
                    eval(host, *r, first.frames)
                },
                Err(_) => first,
            }
        },
        ExprView::Unary(op, operand) => {
            let inner = eval(host, *operand, frames);
            match inner.outcome {
                Ok(v) => Evaluated { outcome: completed(host, unary(op, v)), frames: inner.frames },
                Err(_) => inner,
            }
        },
        ExprView::Binary(l, op, r) => {
            let first = eval(host, *l, frames);
            match first.outcome {
                Ok(x) => {
                    let second = eval(host, *r, first.frames);
                    match second.outcome {
                        Ok(y) => Evaluated {
                            outcome: completed(host, binary(x, op, y)),
                            frames: second.frames,
                        },
                        Err(_) => second,
                    }
                },
                Err(_) => first,
            }
        },
    }
}

/// What a program has done: the scopes it leaves and the lines it has
/// written.
pub struct World {
    pub frames: Seq<Frame>,
    pub output: Seq<Seq<char>>,
}

/// How a value is written.
pub open spec fn written(host: Host, v: LiteralView) -> Seq<char> {
    match v {
        LiteralView::Number(n) => (host.text)(n),
        _ => plain_text(v)->0,
    }
}

/// The world after the value or error of a statement's expression is
/// dealt with: an error is reported; a value is written if `show` says so.
pub open spec fn concluded(host: Host, w: World, r: Evaluated, show: bool) -> World {
    match r.outcome {
        Ok(v) => World {
            frames: r.frames,
            output: if show {
                w.output.push(written(host, v))
            } else {
                w.output
            },
        },
        Err(error) => World { frames: r.frames, output: w.output.push(error.report()) },
    }
}

/// The execution of `s` in the world `w`.
///
/// An expression statement evaluates its expression, and writes the value
/// in interactive mode; a print statement writes it in any mode. A
/// declaration binds its name in the innermost scope, to the value of its
/// initializer if it has one and that succeeds. A block executes its
/// statements in a scope of their own. A conditional executes its first
/// branch if its condition counts as true, and its second branch, if it has
/// one, otherwise. A runtime error is reported and ends the statement in
/// which it arises, and no other.
pub open spec fn execute(host: Host, repl: bool, s: StmtView, w: World) -> World
    decreases s, 0nat,
{
    match s {
        StmtView::Expr(e) => concluded(host, w, eval(host, e, w.frames), repl),
        StmtView::Print(e) => concluded(host, w, eval(host, e, w.frames), true),
        StmtView::Let(name, None) => World { frames: defined(w.frames, name, None), ..w },
        StmtView::Let(name, Some(e)) => {
            let r = eval(host, e, w.frames);
            match r.outcome {
                Ok(v) => World { frames: defined(r.frames, name, Some(v)), ..w },
                Err(error) => World {
                    frames: defined(r.frames, name, None),
                    output: w.output.push(error.report()),
                },
            }
        },
        StmtView::Block(body) => {
            let inside = execute_all(host, repl, body, 0, World { frames: entered(w.frames), ..w });
            World { frames: left(inside.frames), ..inside }
        },
        StmtView::If(c, t, e) => {
            let r = eval(host, c, w.frames);
            match r.outcome {
                Ok(v) => {
                    let after = World { frames: r.frames, ..w };
                    if truthy(v) {
                        execute(host, repl, *t, after)
                    } else {
                        match e {
                            Some(other) => execute(host, repl, *other, after),
                            None => after,
                        }
                    }
                },
                Err(error) => World { frames: r.frames, output: w.output.push(error.report()) },
            }
        },
    }
}

/// The execution of the statements `body[from..]`, in order.
pub open spec fn execute_all(
    host: Host,
    repl: bool,
    body: Seq<StmtView>,
    from: int,
    w: World,
) -> World
    decreases body, body.len() - from,
{
    if from < 0 || from >= body.len() {
        w
    } else {
        execute_all(host, repl, body, from + 1, execute(host, repl, body[from], w))
    }
}

/// What the host answers to a request.
pub open spec fn reply_to(host: Host, request: RequestView) -> ReplyView {
    match request {
        RequestView::Numeral(t) => ReplyView::Number((host.numeral)(t)),
        RequestView::Arithmetic(op, a, b) => ReplyView::Number((host.arithmetic)(op, a, b)),
        RequestView::Text(n) => ReplyView::Text((host.text)(n)),
        _ => ReplyView::Nothing,
    }
}

/// How far a state is from one in which the interpreter goes on by
/// itself: an answer of the host brings it nearer.
pub open spec fn urgency(s: State) -> nat {
    match s.focus {
        Some(ev) => match ev.control {
            ControlView::Arith(_, _, _) => 2,
            ControlView::Concat(_, _) => 2,
            ControlView::Value(_) => 1,
            _ => 0,
        },
        None => 0,
    }
}

/// The state in which the interpreter finishes when it starts in `s` and
/// the host answers every request as `host` says.
#[verifier::opaque]
pub open spec fn driven(host: Host, s: State) -> State
    decreases cost(s), urgency(s),
{
    match awaited(s) {
        RequestView::Finished => s,
        RequestView::Numeral(_) => s,
        RequestView::Continue => {
            proof {
                lemma_step_lowers_cost(s);
            }
            driven(host, step(s))
        },
        request => driven(host, answered(s, reply_to(host, request))),
    }
}

/// The state `s` with `control` as what its evaluation has come to.
pub open spec fn with_control(s: State, control: ControlView) -> State {
    match s.focus {
        Some(ev) => State { focus: Some(EvaluationView { control, ..ev }), ..s },
        None => s,
    }
}

/// A step of the interpreter by itself does not change where it finishes.
pub proof fn lemma_driven_step(host: Host, s: State)
    requires
        awaited(s) is Continue,
    ensures
        driven(host, s) == driven(host, step(s)),
{
    reveal_with_fuel(driven, 1);
}

/// An evaluation that has come to an applied operator goes on with the
/// operator's value, or ends with its error.
pub proof fn lemma_driven_completes(host: Host, s: State, control: ControlView)
    requires
        s.focus is Some,
        s.focus->0.control == control,
        !(control is Expr),
    ensures
        driven(host, s) == match completed(host, control) {
            Ok(v) => driven(host, with_control(s, ControlView::Value(v))),
            Err(error) => driven(host, abort(s, s.focus->0.sink, error)),
        },
{
    reveal_with_fuel(driven, 1);
    let ev = s.focus->0;
    match control {
        ControlView::Value(v) => {
            assert(with_control(s, ControlView::Value(v)) == s);
        },
        _ => {},
    }
}


/// The state `s` with an evaluation that has come to `control`, with
/// `pending` waiting for its value, in the scopes `frames`.
pub open spec fn focused(
    s: State,
    control: ControlView,
    pending: Seq<ContView>,
    frames: Seq<Frame>,
) -> State {
    State {
        frames,
        focus: Some(EvaluationView { control, pending, sink: s.focus->0.sink }),
        ..s
    }
}

/// The state in which the evaluation under way in `s` has arrived at `r`:
/// a value goes to what waits for it; an error ends the evaluation.
pub open spec fn arrived(s: State, r: Evaluated) -> State {
    match r.outcome {
        Ok(v) => focused(s, ControlView::Value(v), s.focus->0.pending, r.frames),
        Err(error) => abort(State { frames: r.frames, ..s }, s.focus->0.sink, error),
    }
}

/// An applied operator in the middle of an evaluation comes to what
/// `completed` says.
proof fn lemma_applied(host: Host, s: State, control: ControlView)
    requires
        s.focus is Some,
        s.focus->0.control == control,
        !(control is Expr),
    ensures
        driven(host, s) == driven(
            host,
            arrived(s, Evaluated { outcome: completed(host, control), frames: s.frames }),
        ),
{
    lemma_driven_completes(host, s, control);
    match completed(host, control) {
        Ok(v) => {
            assert(with_control(s, ControlView::Value(v)) == focused(
                s,
                ControlView::Value(v),
                s.focus->0.pending,
                s.frames,
            ));
        },
        Err(error) => {
            assert(State { frames: s.frames, ..s } == s);
        },
    }
}

/// The interpreter evaluates expressions as `eval` says: from a state in
/// which the expression `e` is to be evaluated, it finishes where it
/// finishes from the state in which the value of `e` has arrived, or its
/// error has ended the evaluation.
pub proof fn lemma_eval(host: Host, s: State, e: ExprView)
    requires
        s.focus is Some,
        s.focus->0.control == ControlView::Expr(e),
    ensures
        driven(host, s) == driven(host, arrived(s, eval(host, e, s.frames))),
    decreases e,
{
    let ev = s.focus->0;
    let pending = ev.pending;
    lemma_driven_step(host, s);
    let s1 = step(s);
    match e {
        ExprView::Literal(v) => {
            assert(s1 == arrived(s, eval(host, e, s.frames)));
        },
        ExprView::Grouping(inner) => {
            lemma_eval(host, s1, *inner);
            assert(arrived(s1, eval(host, *inner, s.frames)) == arrived(
                s,
                eval(host, e, s.frames),
            ));
        },
        ExprView::Variable(name) => {
            let control = variable(s.frames, name);
            assert(s1 == focused(s, control, pending, s.frames));
            lemma_applied(host, s1, control);
            assert(arrived(s1, Evaluated { outcome: completed(host, control), frames: s.frames })
                == arrived(s, eval(host, e, s.frames)));
        },
        ExprView::Assign(name, value) => {
            if resolve(s.frames, name) is None {
                let control = failure(ErrorKind::UndefinedVariable, quoted(name));
                assert(s1 == focused(s, control, pending, s.frames));
                lemma_applied(host, s1, control);
                assert(arrived(
                    s1,
                    Evaluated { outcome: completed(host, control), frames: s.frames },
                ) == arrived(s, eval(host, e, s.frames)));
            } else {
                let k = ContView::Store(name);
                assert(s1 == focused(s, ControlView::Expr(*value), pending.push(k), s.frames));
                lemma_eval(host, s1, *value);
                let r = eval(host, *value, s.frames);
                let s2 = arrived(s1, r);
                match r.outcome {
                    Ok(v) => {
                        assert(pending.push(k).drop_last() =~= pending);
                        lemma_driven_step(host, s2);
                        assert(step(s2) == arrived(s, eval(host, e, s.frames)));
                    },
                    Err(_) => {
                        assert(s2 == arrived(s, eval(host, e, s.frames)));
                    },
                }
            }
        },
        ExprView::Logical(l, op, r) => {
            let k = ContView::Logical(op, *r);
            assert(s1 == focused(s, ControlView::Expr(*l), pending.push(k), s.frames));
            lemma_eval(host, s1, *l);
            let first = eval(host, *l, s.frames);
            let s2 = arrived(s1, first);
            match first.outcome {
                Ok(v) => {
                    assert(pending.push(k).drop_last() =~= pending);
                    lemma_driven_step(host, s2);
                    let s3 = step(s2);
                    if (op == LogicalOp::Or) == truthy(v) {
                        assert(s3 == arrived(s, eval(host, e, s.frames)));
                    } else {
                        assert(s3 == focused(s, ControlView::Expr(*r), pending, first.frames));
                        lemma_eval(host, s3, *r);
                        assert(arrived(s3, eval(host, *r, first.frames)) == arrived(
                            s,
                            eval(host, e, s.frames),
                        ));
                    }
                },
                Err(_) => {
                    assert(s2 == arrived(s, eval(host, e, s.frames)));
                },
            }
        },
        ExprView::Unary(op, operand) => {
            let k = ContView::Unary(op);
            assert(s1 == focused(s, ControlView::Expr(*operand), pending.push(k), s.frames));
            lemma_eval(host, s1, *operand);
            let inner = eval(host, *operand, s.frames);
            let s2 = arrived(s1, inner);
            match inner.outcome {
                Ok(v) => {
                    assert(pending.push(k).drop_last() =~= pending);
                    lemma_driven_step(host, s2);
                    let s3 = step(s2);
                    let control = unary(op, v);
                    assert(s3 == focused(s, control, pending, inner.frames));
                    lemma_applied(host, s3, control);
                    assert(arrived(
                        s3,
                        Evaluated { outcome: completed(host, control), frames: inner.frames },
                    ) == arrived(s, eval(host, e, s.frames)));
                },
                Err(_) => {
                    assert(s2 == arrived(s, eval(host, e, s.frames)));
                },
            }
        },
        ExprView::Binary(l, op, r) => {
            let k = ContView::Right(op, *r);
            assert(s1 == focused(s, ControlView::Expr(*l), pending.push(k), s.frames));
            lemma_eval(host, s1, *l);
            let first = eval(host, *l, s.frames);
            let s2 = arrived(s1, first);
            match first.outcome {
                Ok(x) => {
                    assert(pending.push(k).drop_last() =~= pending);
                    lemma_driven_step(host, s2);
                    let s3 = step(s2);
                    let k2 = ContView::Apply(op, x);
                    assert(s3 == focused(s, ControlView::Expr(*r), pending.push(k2), first.frames));
                    lemma_eval(host, s3, *r);
                    let second = eval(host, *r, first.frames);
                    let s4 = arrived(s3, second);
                    match second.outcome {
                        Ok(y) => {
                            assert(pending.push(k2).drop_last() =~= pending);
                            lemma_driven_step(host, s4);
                            let s5 = step(s4);
                            let control = binary(x, op, y);
                            assert(s5 == focused(s, control, pending, second.frames));
                            lemma_applied(host, s5, control);
                            assert(arrived(
                                s5,
                                Evaluated {
                                    outcome: completed(host, control),
                                    frames: second.frames,
                                },
                            ) == arrived(s, eval(host, e, s.frames)));
                        },
                        Err(_) => {
                            assert(s4 == arrived(s, eval(host, e, s.frames)));
                        },
                    }
                },
                Err(_) => {
                    assert(s2 == arrived(s, eval(host, e, s.frames)));
                },
            }
        },
    }
}


/// The world of a state: its scopes and its output.
pub open spec fn world(s: State) -> World {
    World { frames: s.frames, output: s.output }
}

/// The state with no evaluation under way, the jobs `agenda` waiting, and
/// the world `w`.
pub open spec fn resting(s: State, agenda: Seq<JobView>, w: World) -> State {
    State { frames: w.frames, output: w.output, agenda, focus: None, ..s }
}

/// A value that has arrived at the end of an expression or print
/// statement is written, by the interpreter or with the help of the host,
/// if the statement shows its value, and dropped if it does not.
proof fn lemma_shown(host: Host, s: State, v: LiteralView)
    requires
        s.focus is Some,
        s.focus->0.control == ControlView::Value(v),
        s.focus->0.pending.len() == 0,
        s.focus->0.sink is Discard || s.focus->0.sink is Show,
    ensures
        driven(host, s) == driven(
            host,
            resting(
                s,
                s.agenda,
                concluded(
                    host,
                    world(s),
                    Evaluated { outcome: Ok(v), frames: s.frames },
                    shows(s.focus->0.sink, s.repl),
                ),
            ),
        ),
{
    reveal_with_fuel(driven, 1);
}

/// The interpreter executes a statement as `execute` says: from a state
/// whose next job is the statement `stmt`, it finishes where it finishes
/// from the state in which the statement is done.
pub proof fn lemma_execute(host: Host, s: State, stmt: StmtView)
    requires
        s.focus is None,
        s.agenda.len() > 0,
        s.agenda.last() == JobView::Execute(stmt),
    ensures
        driven(host, s) == driven(
            host,
            resting(s, s.agenda.drop_last(), execute(host, s.repl, stmt, world(s))),
        ),
    decreases stmt, 0nat,
{
    let rest = s.agenda.drop_last();
    let w = world(s);
    let done = resting(s, rest, execute(host, s.repl, stmt, w));
    lemma_driven_step(host, s);
    let s1 = step(s);
    match stmt {
        StmtView::Expr(e) => {
            lemma_eval(host, s1, e);
            let r = eval(host, e, s.frames);
            let s2 = arrived(s1, r);
            match r.outcome {
                Ok(v) => {
                    lemma_shown(host, s2, v);
                    assert(resting(
                        s2,
                        s2.agenda,
                        concluded(
                            host,
                            world(s2),
                            Evaluated { outcome: Ok(v), frames: s2.frames },
                            shows(SinkView::Discard, s.repl),
                        ),
                    ) == done);
                },
                Err(_) => {
                    assert(s2 == done);
                },
            }
        },
        StmtView::Print(e) => {
            lemma_eval(host, s1, e);
            let r = eval(host, e, s.frames);
            let s2 = arrived(s1, r);
            match r.outcome {
                Ok(v) => {
                    lemma_shown(host, s2, v);
                    assert(resting(
                        s2,
                        s2.agenda,
                        concluded(
                            host,
                            world(s2),
                            Evaluated { outcome: Ok(v), frames: s2.frames },
                            true,
                        ),
                    ) == done);
                },
                Err(_) => {
                    assert(s2 == done);
                },
            }
        },
        StmtView::Let(name, None) => {
            assert(s1 == done);
        },
        StmtView::Let(name, Some(e)) => {
            lemma_eval(host, s1, e);
            let r = eval(host, e, s.frames);
            let s2 = arrived(s1, r);
            match r.outcome {
                Ok(v) => {
                    lemma_driven_step(host, s2);
                    assert(step(s2) == done);
                },
                Err(_) => {
                    assert(s2 == done);
                },
            }
        },
        StmtView::Block(body) => {
            let base = rest.push(JobView::Leave);
            assert(scheduled(body).take(body.len() as int) =~= scheduled(body));
            lemma_execute_all(host, s1, body, 0, base);
            let inside = execute_all(host, s.repl, body, 0, world(s1));
            let s2 = resting(s1, base, inside);
            lemma_driven_step(host, s2);
            assert(base.drop_last() =~= rest);
            assert(step(s2) == done);
        },
        StmtView::If(c, t, e) => {
            lemma_eval(host, s1, c);
            let r = eval(host, c, s.frames);
            let s2 = arrived(s1, r);
            match r.outcome {
                Ok(v) => {
                    lemma_driven_step(host, s2);
                    let s3 = step(s2);
                    if truthy(v) {
                        assert(rest.push(JobView::Execute(*t)).drop_last() =~= rest);
                        lemma_execute(host, s3, *t);
                        assert(resting(s3, rest, execute(host, s.repl, *t, world(s3))) == done);
                    } else {
                        match e {
                            Some(other) => {
                                assert(rest.push(JobView::Execute(*other)).drop_last() =~= rest);
                                lemma_execute(host, s3, *other);
                                assert(resting(s3, rest, execute(host, s.repl, *other, world(s3)))
                                    == done);
                            },
                            None => {
                                assert(s3 == done);
                            },
                        }
                    }
                },
                Err(_) => {
                    assert(s2 == done);
                },
            }
        },
    }
}

/// The interpreter executes statements in order: from a state whose next
/// jobs are the statements `body[from..]`, above the jobs `base`, it
/// finishes where it finishes from the state in which they are all done.
pub proof fn lemma_execute_all(
    host: Host,
    s: State,
    body: Seq<StmtView>,
    from: int,
    base: Seq<JobView>,
)
    requires
        s.focus is None,
        0 <= from <= body.len(),
        s.agenda == base + scheduled(body).take(body.len() - from),
    ensures
        driven(host, s) == driven(
            host,
            resting(s, base, execute_all(host, s.repl, body, from, world(s))),
        ),
    decreases body, body.len() - from,
{
    if from >= body.len() {
        assert(s.agenda =~= base);
        assert(resting(s, base, world(s)) == s);
    } else {
        let n = body.len() - from;
        assert(s.agenda.last() == JobView::Execute(body[from]));
        lemma_execute(host, s, body[from]);
        let s1 = resting(s, s.agenda.drop_last(), execute(host, s.repl, body[from], world(s)));
        assert(s.agenda.drop_last() =~= base + scheduled(body).take(n - 1));
        lemma_execute_all(host, s1, body, from + 1, base);
    }
}

/// What `interpret` comes to: an interpreter that has nothing under way is
/// given the statements `program`; driven by the host it finishes with
/// nothing left to do, in the world that executing the statements in order
/// gives.
pub proof fn lemma_interpret(host: Host, s: State, program: Seq<StmtView>)
    requires
        s.focus is None,
        s.agenda.len() == 0,
    ensures
        driven(host, State { agenda: s.agenda + scheduled(program), ..s }) == resting(
            s,
            Seq::empty(),
            execute_all(host, s.repl, program, 0, world(s)),
        ),
{
    let loaded = State { agenda: s.agenda + scheduled(program), ..s };
    assert(scheduled(program).take(program.len() as int) =~= scheduled(program));
    assert(s.agenda =~= Seq::empty());
    lemma_execute_all(host, loaded, program, 0, Seq::empty());
    reveal_with_fuel(driven, 1);
}


/// A variable that was declared without an initializer cannot be read:
/// after `let name;` the expression `name` fails with
/// `UninitializedAccess`.
pub proof fn lemma_read_uninitialized(host: Host, repl: bool, name: Seq<char>, w: World)
    requires
        w.frames.len() >= 1,
    ensures
        eval(
            host,
            ExprView::Variable(name),
            execute(host, repl, StmtView::Let(name, None), w).frames,
        ).outcome == Err::<LiteralView, RuntimeErrorView>(
            RuntimeErrorView {
                what: not_initialized(name),
                kind: ErrorKind::UninitializedAccess,
            },
        ),
        execute(host, repl, StmtView::Let(name, None), w).output == w.output,
{
    lemma_define(w.frames, name, None, None);
}

/// A variable that was declared with an initializer reads as the value of
/// the initializer: after `let name = init;`, where `init` has the value
/// `v`, the expression `name` has the value `v`.
pub proof fn lemma_read_initialized(
    host: Host,
    repl: bool,
    name: Seq<char>,
    init: ExprView,
    v: LiteralView,
    w: World,
)
    requires
        w.frames.len() >= 1,
        eval(host, init, w.frames).outcome == Ok::<LiteralView, RuntimeErrorView>(v),
        eval(host, init, w.frames).frames.len() >= 1,
    ensures
        eval(
            host,
            ExprView::Variable(name),
            execute(host, repl, StmtView::Let(name, Some(init)), w).frames,
        ).outcome == Ok::<LiteralView, RuntimeErrorView>(v),
{
    lemma_define(eval(host, init, w.frames).frames, name, Some(v), Some(v));
}

/// An assignment to a variable that no scope binds fails with
/// `UndefinedVariable`; its right side is not evaluated, and nothing is
/// declared.
pub proof fn lemma_assign_undeclared(host: Host, name: Seq<char>, value: ExprView, frames: Seq<Frame>)
    requires
        resolve(frames, name) is None,
    ensures
        eval(host, ExprView::Assign(name, Box::new(value)), frames) == (Evaluated {
            outcome: Err(
                RuntimeErrorView { what: quoted(name), kind: ErrorKind::UndefinedVariable },
            ),
            frames,
        }),
{
}

/// Shadowing: a declaration inside a block is gone after the block. After
/// `{ let name = v; }` the scopes are what they were, so every variable
/// reads outside as it did before.
pub proof fn lemma_block_shadows(
    host: Host,
    repl: bool,
    name: Seq<char>,
    v: LiteralView,
    w: World,
)
    requires
        w.frames.len() >= 1,
    ensures
        execute(
            host,
            repl,
            StmtView::Block(seq![StmtView::Let(name, Some(ExprView::Literal(v)))]),
            w,
        ) == w,
{
    let body = seq![StmtView::Let(name, Some(ExprView::Literal(v)))];
    let inner = World { frames: entered(w.frames), ..w };
    lemma_shadowing(w.frames, name, Some(v), name);
    reveal_with_fuel(execute_all, 2);
    assert(execute_all(host, repl, body, 0, inner) == execute(host, repl, body[0], inner));
}

/// Assignment through a block: an assignment inside a block to a variable
/// that is bound outside it writes the outer binding. After `{ name = v; }`
/// the scopes are those after `name = v;`, and `name` reads as `v`.
pub proof fn lemma_block_assigns(
    host: Host,
    repl: bool,
    name: Seq<char>,
    v: LiteralView,
    w: World,
)
    requires
        w.frames.len() >= 1,
        resolve(w.frames, name) is Some,
    ensures
        execute(
            host,
            repl,
            StmtView::Block(
                seq![StmtView::Expr(ExprView::Assign(name, Box::new(ExprView::Literal(v))))],
            ),
            w,
        ).frames == assigned(w.frames, name, Some(v)),
        lookup(assigned(w.frames, name, Some(v)), name) == Some(Some(v)),
{
    let assign = ExprView::Assign(name, Box::new(ExprView::Literal(v)));
    let body = seq![StmtView::Expr(assign)];
    let inner = World { frames: entered(w.frames), ..w };
    lemma_assign_through(w.frames, name, Some(v));
    lemma_assigned_lookup(inner.frames, name, Some(v));
    let written = assigned(inner.frames, name, Some(v));
    assert(eval(host, ExprView::Literal(v), inner.frames) == (Evaluated {
        outcome: Ok(v),
        frames: inner.frames,
    }));
    assert(eval(host, assign, inner.frames) == (Evaluated { outcome: Ok(v), frames: written }));
    let after = execute(host, repl, body[0], inner);
    assert(after.frames == written);
    assert(execute_all(host, repl, body, 1, after) == after);
    assert(execute_all(host, repl, body, 0, inner) == after);
    assert(left(written) == assigned(w.frames, name, Some(v)));
}

/// Declaring a name again in the same scope overwrites it: `let name = a;
/// let name = b;` leaves the scopes that `let name = b;` alone leaves, and
/// no outer scope is touched.
pub proof fn lemma_redeclare(
    host: Host,
    repl: bool,
    name: Seq<char>,
    a: LiteralView,
    b: LiteralView,
    w: World,
)
    requires
        w.frames.len() >= 1,
    ensures
        execute(
            host,
            repl,
            StmtView::Let(name, Some(ExprView::Literal(b))),
            execute(host, repl, StmtView::Let(name, Some(ExprView::Literal(a))), w),
        ) == execute(host, repl, StmtView::Let(name, Some(ExprView::Literal(b))), w),
        forall|i: int|
            0 <= i < w.frames.len() - 1 ==> execute(
                host,
                repl,
                StmtView::Let(name, Some(ExprView::Literal(b))),
                w,
            ).frames[i] == w.frames[i],
{
    lemma_define(w.frames, name, Some(a), Some(b));
    lemma_define(w.frames, name, Some(b), Some(b));
}

/// A division by zero fails, whatever is divided, and the host is not
/// asked.
pub proof fn lemma_eval_division_by_zero(
    host: Host,
    l: ExprView,
    r: ExprView,
    a: Number,
    b: Number,
    frames: Seq<Frame>,
)
    requires
        eval(host, l, frames).outcome == Ok::<LiteralView, RuntimeErrorView>(LiteralView::Number(a)),
        eval(host, r, eval(host, l, frames).frames).outcome == Ok::<LiteralView, RuntimeErrorView>(
            LiteralView::Number(b),
        ),
        b.zero(),
    ensures
        eval(host, ExprView::Binary(Box::new(l), BinaryOp::Div, Box::new(r)), frames).outcome
            == Err::<LiteralView, RuntimeErrorView>(
            RuntimeErrorView { what: "cannot divide by zero"@, kind: ErrorKind::ZeroDivision },
        ),
{
}


/// Where the interpreter finishes does not depend on how far it has gone
/// by itself already.
pub proof fn lemma_driven_settled(host: Host, s: State)
    ensures
        driven(host, settled(s)) == driven(host, s),
    decreases cost(s),
{
    if awaited(s) is Continue {
        lemma_step_lowers_cost(s);
        lemma_driven_step(host, s);
        lemma_driven_settled(host, step(s));
    }
}

/// Going on by itself, the interpreter does not raise its cost, and lowers
/// it unless it stays where it is.
pub proof fn lemma_settled_cost(s: State)
    ensures
        settled(s) == s || cost(settled(s)) < cost(s),
        !(awaited(settled(s)) is Continue),
    decreases cost(s),
{
    if awaited(s) is Continue {
        lemma_step_lowers_cost(s);
        lemma_settled_cost(step(s));
    }
}


/// An answer of the host to what the interpreter asks brings it nearer to
/// its end: it lowers the cost, or keeps the cost and lowers the urgency.
pub proof fn lemma_answer_progress(host: Host, s: State)
    requires
        awaited(s) is Arithmetic || awaited(s) is Text,
    ensures
        cost(answered(s, reply_to(host, awaited(s)))) < cost(s) || (cost(
            answered(s, reply_to(host, awaited(s))),
        ) == cost(s) && urgency(answered(s, reply_to(host, awaited(s)))) < urgency(s)),
{
}

} // verus!

//! The environment: a chain of scopes, each binding names to values.
use vstd::prelude::*;
use crate::lang::expr::{Literal, LiteralView, slot_view};
use crate::lang::runtime_error::ErrorKind;

verus! {

/// One scope: each name it binds, with the value bound to it; a name that
/// was declared and never given a value is bound to `None`.
pub type Frame = Map<Seq<char>, Option<LiteralView>>;

/// One binding of a name.
struct Binding {
    name: String,
    value: Option<Literal>,
}

/// A chain of scopes. The first is the global one, the last the innermost.
pub struct Environment {
    frames: Vec<Vec<Binding>>,
}

/// The scope that a list of bindings stands for: of two bindings of one
/// name the later counts.
spec fn frame_of(bindings: Seq<Binding>) -> Frame
    decreases bindings.len(),
{
    if bindings.len() == 0 {
        Map::empty()
    } else {
        frame_of(bindings.drop_last()).insert(
            bindings.last().name@,
            slot_view(bindings.last().value),
        )
    }
}

/// The index of the innermost scope below `top` that binds `name`.
pub open spec fn resolve_below(frames: Seq<Frame>, name: Seq<char>, top: int) -> Option<int>
    decreases top,
{
    if top <= 0 || top > frames.len() {
        None
    } else if frames[top - 1].contains_key(name) {
        Some(top - 1)
    } else {
        resolve_below(frames, name, top - 1)
    }
}

/// The index of the innermost scope that binds `name`.
pub open spec fn resolve(frames: Seq<Frame>, name: Seq<char>) -> Option<int> {
    resolve_below(frames, name, frames.len() as int)
}

/// What `name` is bound to: its content in the innermost scope that binds
/// it, or `None` if no scope does.
pub open spec fn lookup(frames: Seq<Frame>, name: Seq<char>) -> Option<Option<LiteralView>> {
    match resolve(frames, name) {
        Some(i) => Some(frames[i][name]),
        None => None,
    }
}

/// The chain after `name` is declared in the innermost scope.
pub open spec fn defined(frames: Seq<Frame>, name: Seq<char>, value: Option<LiteralView>) -> Seq<
    Frame,
> {
    frames.update(frames.len() - 1, frames.last().insert(name, value))
}

/// The chain after `value` is written to `name` in the innermost scope that
/// binds it; unchanged if no scope does.
pub open spec fn assigned(frames: Seq<Frame>, name: Seq<char>, value: Option<LiteralView>) -> Seq<
    Frame,
> {
    match resolve(frames, name) {
        Some(i) => frames.update(i, frames[i].insert(name, value)),
        None => frames,
    }
}

/// The chain with a new, empty innermost scope.
pub open spec fn entered(frames: Seq<Frame>) -> Seq<Frame> {
    frames.push(Map::empty())
}

/// The chain without its innermost scope.
pub open spec fn exited(frames: Seq<Frame>) -> Seq<Frame> {
    frames.drop_last()
}

/// The last binding of a name gives the name's content in the scope; a
/// name without a binding is not bound in the scope.
proof fn lemma_frame_of_find(bindings: Seq<Binding>, name: Seq<char>, at: int)
    requires
        -1 <= at < bindings.len(),
        at >= 0 ==> bindings[at].name@ == name,
        forall|j: int| at < j < bindings.len() ==> bindings[j].name@ != name,
    ensures
        at >= 0 ==> frame_of(bindings).contains_key(name) && frame_of(bindings)[name] == slot_view(
            bindings[at].value,
        ),
        at < 0 ==> !frame_of(bindings).contains_key(name),
    decreases bindings.len(),
{
    if bindings.len() > 0 && at < bindings.len() - 1 {
        lemma_frame_of_find(bindings.drop_last(), name, at);
    }
}

/// Replacing the last binding of a name binds the name anew in the scope.
proof fn lemma_frame_of_update(bindings: Seq<Binding>, at: int, fresh: Binding)
    requires
        0 <= at < bindings.len(),
        bindings[at].name@ == fresh.name@,
        forall|j: int| at < j < bindings.len() ==> bindings[j].name@ != fresh.name@,
    ensures
        frame_of(bindings.update(at, fresh)) == frame_of(bindings).insert(
            fresh.name@,
            slot_view(fresh.value),
        ),
    decreases bindings.len(),
{
    let after = bindings.update(at, fresh);
    if at == bindings.len() - 1 {
        assert(after.drop_last() =~= bindings.drop_last());
        assert(frame_of(after) =~= frame_of(bindings).insert(fresh.name@, slot_view(fresh.value)));
    } else {
        lemma_frame_of_update(bindings.drop_last(), at, fresh);
        assert(after.drop_last() =~= bindings.drop_last().update(at, fresh));
        assert(after.last() == bindings.last());
        assert(frame_of(after) =~= frame_of(bindings).insert(fresh.name@, slot_view(fresh.value)));
    }
}

/// Adding a binding binds its name anew in the scope.
proof fn lemma_frame_of_push(bindings: Seq<Binding>, fresh: Binding)
    ensures
        frame_of(bindings.push(fresh)) == frame_of(bindings).insert(
            fresh.name@,
            slot_view(fresh.value),
        ),
{
    assert(bindings.push(fresh).drop_last() =~= bindings);
}

/// The place of the last binding of `name` in `bindings`, if there is one.
fn find(bindings: &Vec<Binding>, name: &String) -> (r: Option<usize>)
    ensures
        match r {
            Some(i) => i < bindings.len() && bindings[i as int].name@ == name@
                && frame_of(bindings@).contains_key(name@)
                && frame_of(bindings@)[name@] == slot_view(bindings[i as int].value)
                && forall|j: int| i < j < bindings.len() ==> bindings[j].name@ != name@,
            None => !frame_of(bindings@).contains_key(name@),
        },
{
    let mut i: usize = bindings.len();
    while i > 0
        invariant
            i <= bindings.len(),
            forall|j: int| i <= j < bindings.len() ==> bindings[j].name@ != name@,
        decreases i,
    {
        i -= 1;
        if bindings[i].name == *name {
            proof {
                lemma_frame_of_find(bindings@, name@, i as int);
            }
            return Some(i);
        }
    }
    proof {
        lemma_frame_of_find(bindings@, name@, -1);
    }
    None
}

impl View for Environment {
    type V = Seq<Frame>;

    closed spec fn view(&self) -> Seq<Frame> {
        Seq::new(self.frames@.len(), |i: int| frame_of(self.frames@[i]@))
    }
}

impl Environment {
    /// An environment always has its global scope.
    pub open spec fn wf(&self) -> bool {
        self@.len() >= 1
    }

    /// An environment with an empty global scope.
    pub fn new() -> (r: Self)
        ensures
            r.wf(),
            r@ == seq![Map::<Seq<char>, Option<LiteralView>>::empty()],
    {
        let mut frames: Vec<Vec<Binding>> = Vec::new();
        frames.push(Vec::new());
        let r = Self { frames };
        assert(r@ =~= seq![Map::<Seq<char>, Option<LiteralView>>::empty()]);
        r
    }

    /// The environment with a new, empty scope inside `enclosing`.
    pub fn from(enclosing: Box<Environment>) -> (r: Self)
        ensures
            r@ == entered(enclosing@),
    {
        let mut r = *enclosing;
        r.enter();
        r
    }

    /// Opens a new innermost scope.
    pub fn enter(&mut self)
        ensures
            final(self)@ == entered(old(self)@),
    {
        self.frames.push(Vec::new());
        assert(self@ =~= entered(old(self)@));
    }

    /// Drops the innermost scope; the global scope stays.
    pub fn exit(&mut self)
        ensures
            old(self)@.len() > 1 ==> final(self)@ == exited(old(self)@),
            old(self)@.len() <= 1 ==> final(self)@ == old(self)@,
    {
        if self.frames.len() > 1 {
            self.frames.pop();
            assert(self@ =~= exited(old(self)@));
        }
    }

    /// How many scopes are open, the global one included.
    pub fn depth(&self) -> (r: usize)
        ensures
            r == self@.len(),
    {
        self.frames.len()
    }

    /// Declares `name` in the innermost scope, with `value` as its content;
    /// a binding of `name` in that scope is overwritten.
    pub fn define(&mut self, name: String, value: Option<Literal>)
        requires
            old(self).wf(),
        ensures
            final(self).wf(),
            final(self)@ == defined(old(self)@, name@, slot_view(value)),
    {
        let last = self.frames.len() - 1;
        let mut frame: Vec<Binding> = Vec::new();
        let ghost before = self.frames@;
        std::mem::swap(&mut frame, &mut self.frames[last]);
        let fresh = Binding { name, value };
        proof {
            assert(frame@ == before[last as int]@);
        }
        match find(&frame, &fresh.name) {
            Some(i) => {
                proof {
                    lemma_frame_of_update(frame@, i as int, fresh);
                }
                frame.set(i, fresh);
            },
            None => {
                proof {
                    lemma_frame_of_push(frame@, fresh);
                }
                frame.push(fresh);
            },
        }
        self.frames.set(last, frame);
        assert(self@ =~= defined(old(self)@, name@, slot_view(value)));
    }

    /// Writes `value` to `name` in the innermost scope that binds it. Fails
    /// with `UndefinedVariable`, changing nothing, if no scope binds `name`.
    pub fn assign(&mut self, name: String, value: Option<Literal>) -> (r: Result<(), ErrorKind>)
        ensures
            final(self)@ == assigned(old(self)@, name@, slot_view(value)),
            final(self)@.len() == old(self)@.len(),
            r is Ok <==> resolve(old(self)@, name@) is Some,
            r is Err ==> r == Err::<(), ErrorKind>(ErrorKind::UndefinedVariable),
    {
        let mut i: usize = self.frames.len();
        while i > 0
            invariant
                i <= self.frames.len(),
                self@ == old(self)@,
                resolve_below(self@, name@, i as int) == resolve(self@, name@),
            decreases i,
        {
            i -= 1;
            let mut frame: Vec<Binding> = Vec::new();
            let ghost before = self.frames@;
            std::mem::swap(&mut frame, &mut self.frames[i]);
            proof {
                assert(frame@ == before[i as int]@);
            }
            match find(&frame, &name) {
                Some(at) => {
                    let fresh = Binding { name, value };
                    proof {
                        lemma_frame_of_update(frame@, at as int, fresh);
                    }
                    frame.set(at, fresh);
                    self.frames.set(i, frame);
                    assert(self@ =~= assigned(old(self)@, name@, slot_view(value)));
                    return Ok(());
                },
                None => {
                    self.frames.set(i, frame);
                    assert(self@ =~= old(self)@);
                },
            }
        }
        Err(ErrorKind::UndefinedVariable)
    }

    /// The content of `name` in the innermost scope that binds it: `None` if
    /// no scope binds `name`, `Some(None)` if it was declared and never given
    /// a value.
    pub fn get(&self, name: &String) -> (r: Option<Option<Literal>>)
        ensures
            match r {
                Some(slot) => lookup(self@, name@) == Some(slot_view(slot)),
                None => lookup(self@, name@) is None,
            },
    {
        let mut i: usize = self.frames.len();
        while i > 0
            invariant
                i <= self.frames.len(),
                resolve_below(self@, name@, i as int) == resolve(self@, name@),
            decreases i,
        {
            i -= 1;
            match find(&self.frames[i], name) {
                Some(at) => {
                    return Some(self.frames[i][at].value.clone());
                },
                None => {},
            }
        }
        None
    }

    /// Whether any scope binds `name`.
    pub fn contains(&self, name: &String) -> (r: bool)
        ensures
            r == (resolve(self@, name@) is Some),
    {
        let mut i: usize = self.frames.len();
        while i > 0
            invariant
                i <= self.frames.len(),
                resolve_below(self@, name@, i as int) == resolve(self@, name@),
            decreases i,
        {
            i -= 1;
            if find(&self.frames[i], name).is_some() {
                return true;
            }
        }
        false
    }
}


/// Declaring a name makes it readable with the declared content, changes no
/// outer scope, and a second declaration of the same name in the same scope
/// replaces the first.
pub proof fn lemma_define(
    frames: Seq<Frame>,
    name: Seq<char>,
    first: Option<LiteralView>,
    second: Option<LiteralView>,
)
    requires
        frames.len() >= 1,
    ensures
        lookup(defined(frames, name, first), name) == Some(first),
        defined(frames, name, first).len() == frames.len(),
        forall|i: int| 0 <= i < frames.len() - 1 ==> defined(frames, name, first)[i] == frames[i],
        defined(defined(frames, name, first), name, second) == defined(frames, name, second),
{
    assert(frames.last().insert(name, first).insert(name, second) =~= frames.last().insert(
        name,
        second,
    ));
    assert(defined(defined(frames, name, first), name, second) =~= defined(frames, name, second));
}

/// A name that is not bound below `top` resolves as it does in any chain
/// that agrees with this one below `top`.
proof fn lemma_resolve_agrees(a: Seq<Frame>, b: Seq<Frame>, name: Seq<char>, top: int)
    requires
        0 <= top <= a.len(),
        top <= b.len(),
        forall|i: int| 0 <= i < top ==> a[i].contains_key(name) == b[i].contains_key(name),
    ensures
        resolve_below(a, name, top) == resolve_below(b, name, top),
    decreases top,
{
    if top > 0 && !a[top - 1].contains_key(name) {
        lemma_resolve_agrees(a, b, name, top - 1);
    }
}

/// A name resolves to a scope of the chain that binds it.
pub proof fn lemma_resolve_bounds(frames: Seq<Frame>, name: Seq<char>, top: int)
    requires
        0 <= top <= frames.len(),
    ensures
        match resolve_below(frames, name, top) {
            Some(i) => 0 <= i < top && frames[i].contains_key(name),
            None => forall|i: int| 0 <= i < top ==> !frames[i].contains_key(name),
        },
    decreases top,
{
    if top > 0 && !frames[top - 1].contains_key(name) {
        lemma_resolve_bounds(frames, name, top - 1);
    }
}

/// Shadowing: what is declared inside a scope is gone when the scope is
/// left, and every name reads outside as it did before the scope was
/// entered.
pub proof fn lemma_shadowing(
    frames: Seq<Frame>,
    name: Seq<char>,
    value: Option<LiteralView>,
    other: Seq<char>,
)
    requires
        frames.len() >= 1,
    ensures
        exited(defined(entered(frames), name, value)) == frames,
        lookup(exited(defined(entered(frames), name, value)), other) == lookup(frames, other),
        lookup(defined(entered(frames), name, value), name) == Some(value),
{
    assert(exited(defined(entered(frames), name, value)) =~= frames);
}

/// Assignment through a scope: a name that is bound outside a scope and
/// not declared in it is written where it is bound, and the value written
/// is read after the scope is left.
pub proof fn lemma_assign_through(frames: Seq<Frame>, name: Seq<char>, value: Option<LiteralView>)
    requires
        frames.len() >= 1,
        resolve(frames, name) is Some,
    ensures
        resolve(entered(frames), name) == resolve(frames, name),
        exited(assigned(entered(frames), name, value)) == assigned(frames, name, value),
        lookup(exited(assigned(entered(frames), name, value)), name) == Some(value),
        lookup(assigned(frames, name, value), name) == Some(value),
{
    let inner = entered(frames);
    let n = frames.len() as int;
    lemma_resolve_agrees(inner, frames, name, n);
    lemma_resolve_bounds(frames, name, n);
    let i = resolve(frames, name)->0;
    assert(resolve(inner, name) == Some(i));
    let written = assigned(frames, name, value);
    assert(exited(assigned(inner, name, value)) =~= written);
    lemma_assigned_lookup(frames, name, value);
}

/// After an assignment to a bound name, the name reads as the value
/// written, and it resolves to the same scope.
pub proof fn lemma_assigned_lookup(frames: Seq<Frame>, name: Seq<char>, value: Option<LiteralView>)
    requires
        resolve(frames, name) is Some,
    ensures
        resolve(assigned(frames, name, value), name) == resolve(frames, name),
        lookup(assigned(frames, name, value), name) == Some(value),
        assigned(frames, name, value).len() == frames.len(),
{
    let n = frames.len() as int;
    lemma_resolve_bounds(frames, name, n);
    let written = assigned(frames, name, value);
    assert forall|i: int| 0 <= i < n implies frames[i].contains_key(name) == written[i].contains_key(
        name,
    ) by {}
    lemma_resolve_agrees(frames, written, name, n);
}

/// An assignment to a name that no scope binds changes nothing.
pub proof fn lemma_assign_unbound(frames: Seq<Frame>, name: Seq<char>, value: Option<LiteralView>)
    requires
        resolve(frames, name) is None,
    ensures
        assigned(frames, name, value) == frames,
        lookup(frames, name) is None,
{
}

} // verus!

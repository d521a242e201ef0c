//! Statements.
use vstd::prelude::*;
use crate::lang::expr::{Expr, ExprView};

verus! {

/// A statement.
#[derive(Debug, PartialEq)]
pub enum Stmt {
    Expr(Box<Expr>),
    If(Box<Expr>, Box<Stmt>, Option<Box<Stmt>>),
    Let(String, Option<Box<Expr>>),
    Block(Vec<Stmt>),
    Print(Box<Expr>),
}

/// The mathematical value of a [`Stmt`].
pub enum StmtView {
    Expr(ExprView),
    If(ExprView, Box<StmtView>, Option<Box<StmtView>>),
    Let(Seq<char>, Option<ExprView>),
    Block(Seq<StmtView>),
    Print(ExprView),
}

impl Stmt {
    /// The mathematical value of the statement.
    pub open spec fn model(self) -> StmtView
        decreases self,
    {
        match self {
            Stmt::Expr(e) => StmtView::Expr(e@),
            Stmt::If(c, t, e) => StmtView::If(
                c@,
                Box::new(t.model()),
                match e {
                    Some(s) => Some(Box::new(s.model())),
                    None => None,
                },
            ),
            Stmt::Let(name, init) => StmtView::Let(
                name@,
                match init {
                    Some(e) => Some(e@),
                    None => None,
                },
            ),
            Stmt::Block(body) => StmtView::Block(
                Seq::new(
                    body@.len(),
                    |i: int|
                        if 0 <= i < body@.len() {
                            body@[i].model()
                        } else {
                            StmtView::Block(Seq::empty())
                        },
                ),
            ),
            Stmt::Print(e) => StmtView::Print(e@),
        }
    }
}

impl View for Stmt {
    type V = StmtView;

    open spec fn view(&self) -> StmtView {
        self.model()
    }
}

impl Clone for Stmt {
    fn clone(&self) -> (r: Self)
        ensures
            r@ == self@,
        decreases self,
    {
        match self {
            Stmt::Expr(e) => Stmt::Expr(Box::new((**e).clone())),
            Stmt::If(c, t, e) => Stmt::If(
                Box::new((**c).clone()),
                Box::new((**t).clone()),
                match e {
                    Some(other) => Some(Box::new((**other).clone())),
                    None => None,
                },
            ),
            Stmt::Let(name, init) => Stmt::Let(
                name.clone(),
                match init {
                    Some(e) => Some(Box::new((**e).clone())),
                    None => None,
                },
            ),
            Stmt::Block(body) => {
                let mut copy: Vec<Stmt> = Vec::new();
                let mut i: usize = 0;
                while i < body.len()
                    invariant
                        i <= body.len(),
                        copy.len() == i,
                        self == Stmt::Block(*body),
                        forall|k: int| 0 <= k < i ==> copy@[k]@ == body@[k]@,
                    decreases body.len() - i,
                {
                    let item = &body[i];
                    proof {
                        vstd::std_specs::vec::axiom_vec_index_decreases(*body, i as int);
                        assert(self->Block_0 == *body);
                        assert(decreases_to!(*self => self->Block_0));
                    }
                    copy.push(item.clone());
                    i += 1;
                }
                proof {
                    lemma_block_view(copy);
                    lemma_block_view(*body);
                    assert(stmt_views(copy@) =~= stmt_views(body@));
                }
                Stmt::Block(copy)
            },
            Stmt::Print(e) => Stmt::Print(Box::new((**e).clone())),
        }
    }
}

/// The views of a sequence of statements.
pub open spec fn stmt_views(stmts: Seq<Stmt>) -> Seq<StmtView> {
    Seq::new(stmts.len(), |i: int| stmts[i]@)
}

/// The view of a block is the views of its statements.
pub proof fn lemma_block_view(body: Vec<Stmt>)
    ensures
        Stmt::Block(body)@ == StmtView::Block(stmt_views(body@)),
{
    assert(Stmt::Block(body).model()->Block_0 =~= stmt_views(body@));
}

} // verus!

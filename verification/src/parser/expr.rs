//! Expressions.

use vstd::prelude::*;

verus! {

/// A binary arithmetic or bitwise operator.
#[derive(Clone, Copy, Debug, PartialEq, Eq, Structural)]
pub enum Op {
    Plus,
    Sub,
    Multi,
    Devide,
    Mod,
    Or,
    And,
    Lsh,
    Rsh,
}

/// A unary operator; `Not` is the bitwise complement.
#[derive(Clone, Copy, Debug, PartialEq, Eq, Structural)]
pub enum UnaryOp {
    Plus,
    Minus,
    Not,
}

/// A comparison operator.
#[derive(Clone, Copy, Debug, PartialEq, Eq, Structural)]
pub enum CompareOp {
    Eq,
    NotEq,
    Bigger,
    Smaller,
    BiggerEq,
    SmallerEq,
}

/// An operand under a unary operator.
#[derive(Debug, PartialEq)]
pub struct UnaryExpr {
    pub op: UnaryOp,
    pub right: Box<Expr>,
}

/// Two operands joined by an arithmetic or bitwise operator.
#[derive(Debug, PartialEq)]
pub struct BinaryExpr {
    pub left: Box<Expr>,
    pub op: Op,
    pub right: Box<Expr>,
}

/// Two operands joined by a comparison.
#[derive(Debug, PartialEq)]
pub struct CompareExpr {
    pub left: Box<Expr>,
    pub op: CompareOp,
    pub right: Box<Expr>,
}

/// A call of the function `ident`.
#[derive(Debug, PartialEq)]
pub struct FunctionCall {
    pub ident: String,
    pub args: Vec<Expr>,
}

/// The element of the array `ident` that `indexer` selects.
#[derive(Debug, PartialEq)]
pub struct ArrayIndex {
    pub ident: String,
    pub indexer: Box<Expr>,
}

/// An expression.
#[derive(Debug, PartialEq)]
pub enum Expr {
    Unary(UnaryExpr),
    Binary(BinaryExpr),
    Compare(CompareExpr),
    Int(i32),
    Char(u8),
    String(String),
    Variable(String),
    FunctionCall(FunctionCall),
    /// The address of the operand.
    Ptr(Box<Expr>),
    ArrayIndex(ArrayIndex),
}

/// An expression as specifications see it: names and strings by their
/// characters, lists as sequences.
pub enum ExprView {
    Unary(UnaryOp, Box<ExprView>),
    Binary(Box<ExprView>, Op, Box<ExprView>),
    Compare(Box<ExprView>, CompareOp, Box<ExprView>),
    Int(i32),
    Char(u8),
    String(Seq<char>),
    Variable(Seq<char>),
    FunctionCall(Seq<char>, Seq<ExprView>),
    Ptr(Box<ExprView>),
    ArrayIndex(Seq<char>, Box<ExprView>),
}

/// The view of an expression.
pub open spec fn expr_view(e: Expr) -> ExprView
    decreases e,
{
    match e {
        Expr::Unary(u) => ExprView::Unary(u.op, Box::new(expr_view(*u.right))),
        Expr::Binary(b) => ExprView::Binary(
            Box::new(expr_view(*b.left)),
            b.op,
            Box::new(expr_view(*b.right)),
        ),
        Expr::Compare(c) => ExprView::Compare(
            Box::new(expr_view(*c.left)),
            c.op,
            Box::new(expr_view(*c.right)),
        ),
        Expr::Int(x) => ExprView::Int(x),
        Expr::Char(c) => ExprView::Char(c),
        Expr::String(s) => ExprView::String(s@),
        Expr::Variable(v) => ExprView::Variable(v@),
        Expr::FunctionCall(fc) => ExprView::FunctionCall(
            fc.ident@,
            first_expr_views(fc.args@, fc.args@.len()),
        ),
        Expr::Ptr(operand) => ExprView::Ptr(Box::new(expr_view(*operand))),
        Expr::ArrayIndex(ai) => ExprView::ArrayIndex(ai.ident@, Box::new(expr_view(*ai.indexer))),
    }
}

impl View for Expr {
    type V = ExprView;

    open spec fn view(&self) -> ExprView {
        expr_view(*self)
    }
}

/// The views of the first `n` expressions of a list.
pub open spec fn first_expr_views(list: Seq<Expr>, n: nat) -> Seq<ExprView>
    decreases list, n,
{
    if n == 0 || n > list.len() {
        Seq::empty()
    } else {
        first_expr_views(list, (n - 1) as nat).push(expr_view(list[n - 1]))
    }
}

/// The views of a list of expressions.
pub open spec fn expr_views(list: Seq<Expr>) -> Seq<ExprView> {
    first_expr_views(list, list.len())
}

/// The views of a list are the views of its items, in order.
pub proof fn lemma_expr_views(list: Seq<Expr>, n: nat)
    requires
        n <= list.len(),
    ensures
        first_expr_views(list, n).len() == n,
        forall|i: int| 0 <= i < n ==> #[trigger] first_expr_views(list, n)[i] == expr_view(list[i]),
    decreases n,
{
    if n > 0 {
        lemma_expr_views(list, (n - 1) as nat);
    }
}

/// The views of a list with one more expression are the views of the list
/// with one more view.
pub proof fn lemma_expr_views_push(list: Seq<Expr>, e: Expr)
    ensures
        expr_views(list.push(e)) == expr_views(list).push(expr_view(e)),
{
    let longer = list.push(e);
    lemma_expr_views(longer, longer.len());
    lemma_expr_views(list, list.len());
    assert(expr_views(longer) =~= expr_views(list).push(expr_view(e)));
}

} // verus!

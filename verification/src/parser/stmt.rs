//! Statements and declared types.

use vstd::prelude::*;
use crate::parser::block::Block;
use crate::parser::expr::{expr_view, Expr, ExprView};

verus! {

/// The declared type of a variable or parameter.
#[derive(Debug, PartialEq)]
pub enum VariableType {
    Int,
    Char,
    Pointer,
    Bool,
    /// Element type and number of elements.
    Array(Box<VariableType>, usize),
}

/// A declaration. `mutable` is false for one made with `:=`.
#[derive(Debug, PartialEq)]
pub struct VariableDeclare {
    pub mutable: bool,
    pub is_static: bool,
    pub ident: String,
    pub v_type: Option<VariableType>,
    pub init_value: Option<Expr>,
}

/// An assignment operator: `=`, `+=`, `-=`, `*=`, `/=`, `%=`.
#[derive(Clone, Copy, Debug, PartialEq, Eq, Structural)]
pub enum AssginOp {
    Eq,
    PlusEq,
    SubEq,
    MultiEq,
    DevideEq,
    ModEq,
}

/// An assignment of `right` to `left`.
#[derive(Debug, PartialEq)]
pub struct Assgin {
    pub left: Expr,
    pub right: Expr,
    pub op: AssginOp,
}

/// What follows the then-branch of an `if`.
#[derive(Debug, PartialEq)]
pub enum ElseBlock {
    NoElse,
    Else(Block),
    Elif(IFStmt),
}

/// An `if` with what follows its first block.
#[derive(Debug, PartialEq)]
pub struct IFStmt {
    pub condition: Expr,
    pub then_block: Block,
    pub else_block: Box<ElseBlock>,
}

/// A loop.
#[derive(Debug, PartialEq)]
pub struct WhileStmt {
    pub condition: Expr,
    pub block: Block,
}

/// A statement.
#[derive(Debug, PartialEq)]
pub enum Stmt {
    VariableDecl(VariableDeclare),
    Expr(Expr),
    Assgin(Assgin),
    Print(Expr),
    If(IFStmt),
    While(WhileStmt),
    Return(Expr),
    /// The instructions of an inline assembly block, one per string.
    InlineAsm(Vec<String>),
    Break,
    Continue,
}

/// A declaration as specifications see it.
pub struct DeclareView {
    pub mutable: bool,
    pub is_static: bool,
    pub ident: Seq<char>,
    pub v_type: Option<VariableType>,
    pub init_value: Option<ExprView>,
}

/// An `if` as specifications see it; a block is the sequence of its
/// statements.
pub struct IfView {
    pub condition: ExprView,
    pub then_block: Seq<StmtView>,
    pub else_block: Box<ElseView>,
}

/// What follows the first block of an `if`, as specifications see it.
pub enum ElseView {
    NoElse,
    Else(Seq<StmtView>),
    Elif(IfView),
}

/// A statement as specifications see it.
pub enum StmtView {
    VariableDecl(DeclareView),
    Expr(ExprView),
    /// Left side, operator, right side.
    Assgin(ExprView, AssginOp, ExprView),
    Print(ExprView),
    If(IfView),
    /// Condition and body.
    While(ExprView, Seq<StmtView>),
    Return(ExprView),
    InlineAsm(Seq<Seq<char>>),
    Break,
    Continue,
}

/// The view of a declaration.
pub open spec fn declare_view(v: VariableDeclare) -> DeclareView {
    DeclareView {
        mutable: v.mutable,
        is_static: v.is_static,
        ident: v.ident@,
        v_type: v.v_type,
        init_value: match v.init_value {
            Some(e) => Some(expr_view(e)),
            None => None,
        },
    }
}

/// The characters of each string of a list.
pub open spec fn string_views(list: Seq<String>) -> Seq<Seq<char>> {
    Seq::new(list.len(), |i: int| list[i]@)
}

/// The view of a statement.
pub open spec fn stmt_view(s: Stmt) -> StmtView
    decreases s,
{
    match s {
        Stmt::VariableDecl(v) => StmtView::VariableDecl(declare_view(v)),
        Stmt::Expr(e) => StmtView::Expr(expr_view(e)),
        Stmt::Assgin(a) => StmtView::Assgin(expr_view(a.left), a.op, expr_view(a.right)),
        Stmt::Print(e) => StmtView::Print(expr_view(e)),
        Stmt::If(ifs) => StmtView::If(if_view(ifs)),
        Stmt::While(w) => StmtView::While(expr_view(w.condition), block_view(w.block)),
        Stmt::Return(e) => StmtView::Return(expr_view(e)),
        Stmt::InlineAsm(lines) => StmtView::InlineAsm(string_views(lines@)),
        Stmt::Break => StmtView::Break,
        Stmt::Continue => StmtView::Continue,
    }
}

/// The views of the first `n` statements of a list.
pub open spec fn first_stmt_views(list: Seq<Stmt>, n: nat) -> Seq<StmtView>
    decreases list, n,
{
    if n == 0 || n > list.len() {
        Seq::empty()
    } else {
        first_stmt_views(list, (n - 1) as nat).push(stmt_view(list[n - 1]))
    }
}

/// The view of a block: the views of its statements.
pub open spec fn block_view(b: Block) -> Seq<StmtView>
    decreases b,
{
    first_stmt_views(b.stmts@, b.stmts@.len())
}

/// The view of what follows the first block of an `if`.
pub open spec fn else_view(other: ElseBlock) -> ElseView
    decreases other,
{
    match other {
        ElseBlock::NoElse => ElseView::NoElse,
        ElseBlock::Else(b) => ElseView::Else(block_view(b)),
        ElseBlock::Elif(inner) => ElseView::Elif(if_view(inner)),
    }
}

/// The view of an `if`.
pub open spec fn if_view(ifs: IFStmt) -> IfView
    decreases ifs,
{
    IfView {
        condition: expr_view(ifs.condition),
        then_block: block_view(ifs.then_block),
        else_block: Box::new(else_view(*ifs.else_block)),
    }
}

impl View for Stmt {
    type V = StmtView;

    open spec fn view(&self) -> StmtView {
        stmt_view(*self)
    }
}

/// The views of a list are the views of its items, in order.
pub proof fn lemma_stmt_views(list: Seq<Stmt>, n: nat)
    requires
        n <= list.len(),
    ensures
        first_stmt_views(list, n).len() == n,
        forall|i: int| 0 <= i < n ==> #[trigger] first_stmt_views(list, n)[i] == stmt_view(list[i]),
    decreases n,
{
    if n > 0 {
        lemma_stmt_views(list, (n - 1) as nat);
    }
}

/// The views of a list with one more statement are the views of the list
/// with one more view.
pub proof fn lemma_stmt_views_push(list: Seq<Stmt>, s: Stmt)
    ensures
        first_stmt_views(list.push(s), list.len() + 1) == first_stmt_views(list, list.len()).push(
            stmt_view(s),
        ),
{
    let longer = list.push(s);
    lemma_stmt_views(longer, longer.len());
    lemma_stmt_views(list, list.len());
    assert(first_stmt_views(longer, longer.len()) =~= first_stmt_views(list, list.len()).push(
        stmt_view(s),
    ));
}

} // verus!

//! The parser: from the tokens of a source file to its syntax tree.

pub mod block;
pub mod expr;
pub mod function;
pub mod program;
pub mod stmt;

use vstd::prelude::*;
use crate::grammar::expr::{
    compare_op_of, is_binary_op, is_compare_op, is_term_op, join, left, op_of, parse_args_rest,
    parse_array_indexer, parse_call_args, parse_expr, parse_expr_rest, parse_factor, parse_term,
    parse_term_rest, unary_op_of,
};
use crate::grammar::program::{
    parse_function, parse_import, parse_item, parse_items, parse_names, parse_params,
    parse_params_rest,
};
use crate::grammar::stmt::{
    assign_op_of, ended, literals, parse_array_length, parse_block, parse_declare,
    parse_element_type, parse_declare_stmt, parse_else, parse_expr_stmt, parse_if, parse_inline,
    parse_keyword_stmt, parse_optional_type, parse_statement_rest, parse_stmt, parse_stmts,
    parse_type, parse_while, string_run, type_of_name,
};
use crate::lexer::{literal_at, type_at, Lexer, ParseError, ParseErrorKind, TokenType};
use crate::parser::block::Block;
use crate::parser::function::{arg_views, function_view, Function, FunctionArg};
use crate::parser::program::{
    file_view, item_view, item_views, FileView, ItemView, ProgramFile, ProgramItem,
};
use crate::parser::stmt::{
    block_view, declare_view, else_view, first_stmt_views, if_view, lemma_stmt_views_push,
    stmt_view, string_views, Assgin, AssginOp, ElseBlock, IFStmt, Stmt, StmtView, VariableDeclare,
    VariableType, WhileStmt,
};
use crate::grammar::tokens::{tokens_of, LexError};
use crate::scanner::tokenize;
use crate::text::str_eq;
use crate::parser::expr::{
    expr_view, expr_views, lemma_expr_views, lemma_expr_views_push, ArrayIndex, BinaryExpr,
    CompareExpr, CompareOp, Expr, ExprView, FunctionCall, Op, UnaryExpr, UnaryOp,
};

verus! {

/// The cursor has moved over the tokens of a construct and nothing else
/// about it has changed.
pub open spec fn moved(before: Lexer, after: Lexer, taken: nat) -> bool {
    &&& after.wf()
    &&& after.tokens() == before.tokens()
    &&& after.path() == before.path()
    &&& after.index() == before.index() + taken
}

/// The cursor reads the same tokens as before.
pub open spec fn same_tokens(before: Lexer, after: Lexer) -> bool {
    &&& after.wf()
    &&& after.tokens() == before.tokens()
    &&& after.path() == before.path()
}

/// The outcome of parsing an expression is what the grammar gives: the
/// tree, with the cursor behind the expression, or the error.
pub open spec fn is_expr(
    r: Result<Expr, ParseError>,
    before: Lexer,
    after: Lexer,
    rule: Result<(ExprView, nat), ParseError>,
) -> bool {
    &&& same_tokens(before, after)
    &&& match rule {
        Ok((v, x)) => r matches Ok(e) && expr_view(e) == v && after.index() == before.index() + 1
            + x,
        Err(err) => r matches Err(e) && e == err,
    }
}

/// A result of the grammar with `taken` more tokens counted.
pub open spec fn and_taken<T>(rule: Result<(T, nat), ParseError>, taken: nat) -> Result<
    (T, nat),
    ParseError,
> {
    match rule {
        Ok((v, used)) => Ok((v, used + taken)),
        Err(e) => Err(e),
    }
}

fn binary_op(t: TokenType) -> (r: bool)
    ensures
        r == is_binary_op(t),
{
    match t {
        TokenType::Plus | TokenType::Minus | TokenType::And | TokenType::Or => true,
        _ => false,
    }
}

fn term_op(t: TokenType) -> (r: bool)
    ensures
        r == is_term_op(t),
{
    match t {
        TokenType::Multi
        | TokenType::Devide
        | TokenType::Mod
        | TokenType::Lsh
        | TokenType::Rsh => true,
        _ => false,
    }
}

fn compare_op(t: TokenType) -> (r: bool)
    ensures
        r == is_compare_op(t),
{
    match t {
        TokenType::DoubleEq
        | TokenType::NotEq
        | TokenType::Bigger
        | TokenType::Smaller
        | TokenType::BiggerEq
        | TokenType::SmallerEq => true,
        _ => false,
    }
}

impl Op {
    /// The operator that a token stands for.
    pub fn from_token_type(t: TokenType) -> (r: Op)
        ensures
            r == op_of(t),
    {
        match t {
            TokenType::Minus => Op::Sub,
            TokenType::Multi => Op::Multi,
            TokenType::Devide => Op::Devide,
            TokenType::Mod => Op::Mod,
            TokenType::Or => Op::Or,
            TokenType::And => Op::And,
            TokenType::Lsh => Op::Lsh,
            TokenType::Rsh => Op::Rsh,
            _ => Op::Plus,
        }
    }
}

impl UnaryOp {
    /// The unary operator that a token stands for.
    pub fn from_token_type(t: TokenType) -> (r: UnaryOp)
        ensures
            r == unary_op_of(t),
    {
        match t {
            TokenType::Minus => UnaryOp::Minus,
            TokenType::Not => UnaryOp::Not,
            _ => UnaryOp::Plus,
        }
    }
}

impl CompareOp {
    /// The comparison that a token stands for.
    pub fn from_token_type(t: TokenType) -> (r: CompareOp)
        ensures
            r == compare_op_of(t),
    {
        match t {
            TokenType::NotEq => CompareOp::NotEq,
            TokenType::Bigger => CompareOp::Bigger,
            TokenType::Smaller => CompareOp::Smaller,
            TokenType::BiggerEq => CompareOp::BiggerEq,
            TokenType::SmallerEq => CompareOp::SmallerEq,
            _ => CompareOp::Eq,
        }
    }
}

/// The join of two operands by the operator `t`.
fn join_exprs(first: Expr, t: TokenType, right: Expr) -> (r: Expr)
    ensures
        expr_view(r) == join(expr_view(first), t, expr_view(right)),
{
    if compare_op(t) {
        Expr::Compare(
            CompareExpr {
                left: Box::new(first),
                op: CompareOp::from_token_type(t),
                right: Box::new(right),
            },
        )
    } else {
        Expr::Binary(
            BinaryExpr { left: Box::new(first), op: Op::from_token_type(t), right: Box::new(right) },
        )
    }
}

/// Parses an expression.
pub fn expr(lexer: &mut Lexer) -> (r: Result<Expr, ParseError>)
    requires
        old(lexer).wf(),
    ensures
        is_expr(
            r,
            *old(lexer),
            *final(lexer),
            parse_expr(old(lexer).tokens(), old(lexer).index()),
        ),
    decreases left(old(lexer).tokens(), old(lexer).index()), 2nat,
{
    let ghost tokens = lexer.tokens();
    let ghost start = lexer.index();
    let mut term_expr = match term(lexer) {
        Err(e) => {
            return Err(e);
        },
        Ok(first) => first,
    };
    let ghost first_end = lexer.index();
    loop
        invariant
            same_tokens(*old(lexer), *lexer),
            tokens == old(lexer).tokens(),
            start == old(lexer).index(),
            start < first_end <= lexer.index(),
            parse_term(tokens, start) is Ok,
            first_end == start + 1 + parse_term(tokens, start)->Ok_0.1,
            parse_expr_rest(tokens, first_end, parse_term(tokens, start)->Ok_0.0) == and_taken(
                parse_expr_rest(tokens, lexer.index(), expr_view(term_expr)),
                (lexer.index() - first_end) as nat,
            ),
        ensures
            is_expr(Ok(term_expr), *old(lexer), *lexer, parse_expr(tokens, start)),
        decreases left(tokens, lexer.index()),
    {
        let t_type = lexer.get_token_type();
        if binary_op(t_type) || compare_op(t_type) {
            lexer.advance();
            let right = match term(lexer) {
                Err(e) => {
                    return Err(e);
                },
                Ok(right) => right,
            };
            term_expr = join_exprs(term_expr, t_type, right);
        } else {
            break ;
        }
    }
    Ok(term_expr)
}

/// Parses a term.
pub fn term(lexer: &mut Lexer) -> (r: Result<Expr, ParseError>)
    requires
        old(lexer).wf(),
    ensures
        is_expr(
            r,
            *old(lexer),
            *final(lexer),
            parse_term(old(lexer).tokens(), old(lexer).index()),
        ),
    decreases left(old(lexer).tokens(), old(lexer).index()), 1nat,
{
    let ghost tokens = lexer.tokens();
    let ghost start = lexer.index();
    let mut left_expr = match factor(lexer) {
        Err(e) => {
            return Err(e);
        },
        Ok(first) => first,
    };
    let ghost first_end = lexer.index();
    loop
        invariant
            same_tokens(*old(lexer), *lexer),
            tokens == old(lexer).tokens(),
            start == old(lexer).index(),
            start < first_end <= lexer.index(),
            parse_factor(tokens, start) is Ok,
            first_end == start + 1 + parse_factor(tokens, start)->Ok_0.1,
            parse_term_rest(tokens, first_end, parse_factor(tokens, start)->Ok_0.0) == and_taken(
                parse_term_rest(tokens, lexer.index(), expr_view(left_expr)),
                (lexer.index() - first_end) as nat,
            ),
        ensures
            is_expr(Ok(left_expr), *old(lexer), *lexer, parse_term(tokens, start)),
        decreases left(tokens, lexer.index()),
    {
        let t_type = lexer.get_token_type();
        if term_op(t_type) {
            lexer.advance();
            let right = match factor(lexer) {
                Err(e) => {
                    return Err(e);
                },
                Ok(right) => right,
            };
            left_expr = join_exprs(left_expr, t_type, right);
        } else {
            break ;
        }
    }
    Ok(left_expr)
}

/// Parses a factor.
pub fn factor(lexer: &mut Lexer) -> (r: Result<Expr, ParseError>)
    requires
        old(lexer).wf(),
    ensures
        is_expr(
            r,
            *old(lexer),
            *final(lexer),
            parse_factor(old(lexer).tokens(), old(lexer).index()),
        ),
    decreases left(old(lexer).tokens(), old(lexer).index()), 0nat,
{
    let t_type = lexer.get_token_type();
    match t_type {
        TokenType::OParen => {
            lexer.advance();
            let value = match expr(lexer) {
                Err(e) => {
                    return Err(e);
                },
                Ok(value) => value,
            };
            match lexer.match_token(TokenType::CParen) {
                Err(e) => Err(e),
                Ok(()) => Ok(value),
            }
        },
        TokenType::Plus | TokenType::Minus | TokenType::Not => {
            let op = UnaryOp::from_token_type(t_type);
            lexer.advance();
            match factor(lexer) {
                Err(e) => Err(e),
                Ok(value) => Ok(Expr::Unary(UnaryExpr { op, right: Box::new(value) })),
            }
        },
        TokenType::String => {
            let literal = lexer.literal();
            lexer.advance();
            Ok(Expr::String(literal))
        },
        TokenType::Ptr => {
            lexer.advance();
            match expr(lexer) {
                Err(e) => Err(e),
                Ok(value) => Ok(Expr::Ptr(Box::new(value))),
            }
        },
        TokenType::True => {
            lexer.advance();
            Ok(Expr::Int(1))
        },
        TokenType::False => {
            lexer.advance();
            Ok(Expr::Int(0))
        },
        TokenType::Char(c) => {
            lexer.advance();
            Ok(Expr::Char(((c as u32) % 256) as u8))
        },
        TokenType::Int(val) => {
            lexer.advance();
            Ok(Expr::Int(val))
        },
        TokenType::Identifier => {
            let ident_name = lexer.literal();
            lexer.advance();
            match lexer.get_token_type() {
                TokenType::OParen => {
                    match function_call_args(lexer) {
                        Err(e) => Err(e),
                        Ok(args) => Ok(
                            Expr::FunctionCall(FunctionCall { ident: ident_name, args }),
                        ),
                    }
                },
                TokenType::OBracket => {
                    match array_indexer(lexer) {
                        Err(e) => Err(e),
                        Ok(indexer) => Ok(
                            Expr::ArrayIndex(
                                ArrayIndex { ident: ident_name, indexer: Box::new(indexer) },
                            ),
                        ),
                    }
                },
                _ => Ok(Expr::Variable(ident_name)),
            }
        },
        _ => Err(lexer.error(ParseErrorKind::Expression)),
    }
}

/// Parses the index of an element: an expression in square brackets.
pub fn array_indexer(lexer: &mut Lexer) -> (r: Result<Expr, ParseError>)
    requires
        old(lexer).wf(),
    ensures
        is_expr(
            r,
            *old(lexer),
            *final(lexer),
            parse_array_indexer(old(lexer).tokens(), old(lexer).index()),
        ),
    decreases left(old(lexer).tokens(), old(lexer).index()), 0nat,
{
    match lexer.match_token(TokenType::OBracket) {
        Err(e) => {
            return Err(e);
        },
        Ok(()) => {},
    }
    let index = match expr(lexer) {
        Err(e) => {
            return Err(e);
        },
        Ok(index) => index,
    };
    match lexer.match_token(TokenType::CBracket) {
        Err(e) => Err(e),
        Ok(()) => Ok(index),
    }
}

/// Parses the arguments of a call, in parentheses.
pub fn function_call_args(lexer: &mut Lexer) -> (r: Result<Vec<Expr>, ParseError>)
    requires
        old(lexer).wf(),
    ensures
        same_tokens(*old(lexer), *final(lexer)),
        match parse_call_args(old(lexer).tokens(), old(lexer).index()) {
            Ok((v, x)) => r matches Ok(args) && expr_views(args@) == v && final(lexer).index()
                == old(lexer).index() + 1 + x,
            Err(err) => r matches Err(e) && e == err,
        },
    decreases left(old(lexer).tokens(), old(lexer).index()), 0nat,
{
    let ghost tokens = lexer.tokens();
    let mut args = Vec::<Expr>::new();
    match lexer.match_token(TokenType::OParen) {
        Err(e) => {
            return Err(e);
        },
        Ok(()) => {},
    }
    let ghost first = lexer.index();
    proof {
        lemma_expr_views(args@, 0);
        assert(expr_views(args@) =~= Seq::empty());
    }
    loop
        invariant_except_break
            first <= lexer.index(),
            parse_args_rest(tokens, first, Seq::empty()) == and_taken(
                parse_args_rest(tokens, lexer.index(), expr_views(args@)),
                (lexer.index() - first) as nat,
            ),
        invariant
            same_tokens(*old(lexer), *lexer),
            tokens == old(lexer).tokens(),
            first == old(lexer).index() + 1,
            first <= tokens.len(),
            parse_call_args(tokens, old(lexer).index()) == parse_args_rest(
                tokens,
                first,
                Seq::empty(),
            ),
        ensures
            parse_args_rest(tokens, first, Seq::empty()) matches Ok((v, x)) && expr_views(args@)
                == v && lexer.index() == first + x,
        decreases left(tokens, lexer.index()),
    {
        match lexer.get_token_type() {
            TokenType::CParen => {
                lexer.advance();
                break ;
            },
            _ => {
                if lexer.position() >= lexer.len() {
                    return Err(lexer.error(ParseErrorKind::Expression));
                }
                let ghost before = args@;
                let arg = match expr(lexer) {
                    Err(e) => {
                        return Err(e);
                    },
                    Ok(arg) => arg,
                };
                proof {
                    lemma_expr_views_push(before, arg);
                }
                args.push(arg);
                if lexer.get_token_type() == TokenType::Comma {
                    lexer.advance();
                }
            },
        }
    }
    Ok(args)
}

impl VariableType {
    /// The type that a name stands for, if it is the name of a type.
    pub fn from_string(ident: &String) -> (r: Option<VariableType>)
        ensures
            r == type_of_name(ident@),
    {
        if str_eq(ident.as_str(), "int") {
            Some(VariableType::Int)
        } else if str_eq(ident.as_str(), "char") {
            Some(VariableType::Char)
        } else if str_eq(ident.as_str(), "bool") {
            Some(VariableType::Bool)
        } else {
            None
        }
    }
}

impl AssginOp {
    /// The assignment that a token stands for.
    pub fn from_token_type(t: &TokenType) -> (r: AssginOp)
        ensures
            r == assign_op_of(*t),
    {
        match t {
            TokenType::PlusEq => AssginOp::PlusEq,
            TokenType::SubEq => AssginOp::SubEq,
            TokenType::MultiEq => AssginOp::MultiEq,
            TokenType::DivEq => AssginOp::DevideEq,
            TokenType::ModEq => AssginOp::ModEq,
            _ => AssginOp::Eq,
        }
    }
}

/// The outcome of parsing a construct without lists is what the grammar
/// gives: the tree, with the cursor behind the construct, or the error.
pub open spec fn is_parsed<T>(
    r: Result<T, ParseError>,
    before: Lexer,
    after: Lexer,
    rule: Result<(T, nat), ParseError>,
) -> bool {
    &&& same_tokens(before, after)
    &&& match rule {
        Ok((v, x)) => r matches Ok(t) && t == v && after.index() == before.index() + 1 + x,
        Err(err) => r matches Err(e) && e == err,
    }
}

/// The element type of an array.
fn element_type(lexer: &mut Lexer) -> (r: Result<VariableType, ParseError>)
    requires
        old(lexer).wf(),
    ensures
        same_tokens(*old(lexer), *final(lexer)),
        match parse_element_type(old(lexer).tokens(), old(lexer).index()) {
            Ok((t, n)) => r matches Ok(v) && v == t && final(lexer).index() == old(lexer).index()
                + n,
            Err(err) => r matches Err(e) && e == err,
        },
    decreases left(old(lexer).tokens(), old(lexer).index()), 2nat,
{
    match lexer.get_token_type() {
        TokenType::Identifier => {
            let ident = lexer.literal();
            match VariableType::from_string(&ident) {
                Some(t) => {
                    lexer.advance();
                    Ok(t)
                },
                None => Err(lexer.error(ParseErrorKind::Type)),
            }
        },
        TokenType::ATSign => type_def(lexer),
        _ => Err(lexer.error(ParseErrorKind::TypeName)),
    }
}

/// What follows the element type of an array.
fn array_length(lexer: &mut Lexer, element: VariableType) -> (r: Result<VariableType, ParseError>)
    requires
        old(lexer).wf(),
    ensures
        same_tokens(*old(lexer), *final(lexer)),
        match parse_array_length(old(lexer).tokens(), old(lexer).index(), element) {
            Ok((t, n)) => r matches Ok(v) && v == t && final(lexer).index() == old(lexer).index()
                + n,
            Err(err) => r matches Err(e) && e == err,
        },
{
    match lexer.match_token(TokenType::Comma) {
        Err(e) => {
            return Err(e);
        },
        Ok(()) => {},
    }
    match lexer.get_token_type() {
        TokenType::Int(s) => {
            if s < 0 {
                return Err(lexer.error(ParseErrorKind::ArrayLength));
            }
            lexer.advance();
            match lexer.match_token(TokenType::CBracket) {
                Err(e) => Err(e),
                Ok(()) => Ok(VariableType::Array(Box::new(element), s as usize)),
            }
        },
        TokenType::QMark => {
            lexer.advance();
            match lexer.match_token(TokenType::CBracket) {
                Err(e) => Err(e),
                Ok(()) => Ok(VariableType::Pointer),
            }
        },
        _ => Err(lexer.error(ParseErrorKind::ArrayLength)),
    }
}

/// Parses a type: `@` and then `ptr`, the name of a type, or an array in
/// square brackets.
pub fn type_def(lexer: &mut Lexer) -> (r: Result<VariableType, ParseError>)
    requires
        old(lexer).wf(),
    ensures
        is_parsed(
            r,
            *old(lexer),
            *final(lexer),
            parse_type(old(lexer).tokens(), old(lexer).index()),
        ),
    decreases left(old(lexer).tokens(), old(lexer).index()), 1nat,
{
    match lexer.match_token(TokenType::ATSign) {
        Err(e) => {
            return Err(e);
        },
        Ok(()) => {},
    }
    match lexer.get_token_type() {
        TokenType::Ptr => {
            lexer.advance();
            Ok(VariableType::Pointer)
        },
        TokenType::Identifier => {
            let ident = lexer.literal();
            match VariableType::from_string(&ident) {
                Some(t) => {
                    lexer.advance();
                    Ok(t)
                },
                None => Err(lexer.error(ParseErrorKind::Type)),
            }
        },
        TokenType::OBracket => {
            lexer.advance();
            let var_type = match element_type(lexer) {
                Err(e) => {
                    return Err(e);
                },
                Ok(t) => t,
            };
            array_length(lexer, var_type)
        },
        _ => Err(lexer.error(ParseErrorKind::Type)),
    }
}

/// The type of a declaration, if one stands here.
fn optional_type(lexer: &mut Lexer) -> (r: Result<Option<VariableType>, ParseError>)
    requires
        old(lexer).wf(),
    ensures
        same_tokens(*old(lexer), *final(lexer)),
        match parse_optional_type(old(lexer).tokens(), old(lexer).index()) {
            Ok((t, n)) => r matches Ok(v) && v == t && final(lexer).index() == old(lexer).index()
                + n,
            Err(err) => r matches Err(e) && e == err,
        },
{
    if lexer.get_token_type() == TokenType::ATSign {
        match type_def(lexer) {
            Err(e) => Err(e),
            Ok(t) => Ok(Some(t)),
        }
    } else {
        Ok(None)
    }
}

/// Parses a declaration, up to the semicolon.
pub fn variable_declare(lexer: &mut Lexer) -> (r: Result<VariableDeclare, ParseError>)
    requires
        old(lexer).wf(),
    ensures
        same_tokens(*old(lexer), *final(lexer)),
        match parse_declare(old(lexer).tokens(), old(lexer).index()) {
            Ok((v, x)) => r matches Ok(d) && declare_view(d) == v && final(lexer).index() == old(
                lexer,
            ).index() + 1 + x,
            Err(err) => r matches Err(e) && e == err,
        },
{
    match lexer.match_token(TokenType::Var) {
        Err(e) => {
            return Err(e);
        },
        Ok(()) => {},
    }
    let ident = lexer.literal();
    match lexer.match_token(TokenType::Identifier) {
        Err(e) => {
            return Err(e);
        },
        Ok(()) => {},
    }
    let v_type = match optional_type(lexer) {
        Err(e) => {
            return Err(e);
        },
        Ok(t) => t,
    };
    match lexer.get_token_type() {
        TokenType::DoubleColon => {
            lexer.advance();
            match expr(lexer) {
                Err(e) => Err(e),
                Ok(init) => Ok(
                    VariableDeclare {
                        mutable: false,
                        is_static: true,
                        ident,
                        v_type,
                        init_value: Some(init),
                    },
                ),
            }
        },
        TokenType::ColonEq => {
            lexer.advance();
            match expr(lexer) {
                Err(e) => Err(e),
                Ok(init) => Ok(
                    VariableDeclare {
                        mutable: false,
                        is_static: false,
                        ident,
                        v_type,
                        init_value: Some(init),
                    },
                ),
            }
        },
        TokenType::Eq => {
            lexer.advance();
            match expr(lexer) {
                Err(e) => Err(e),
                Ok(init) => Ok(
                    VariableDeclare {
                        mutable: true,
                        is_static: false,
                        ident,
                        v_type,
                        init_value: Some(init),
                    },
                ),
            }
        },
        TokenType::SemiColon => Ok(
            VariableDeclare { mutable: true, is_static: false, ident, v_type, init_value: None },
        ),
        _ => Err(lexer.error(ParseErrorKind::Assignment)),
    }
}

/// The semicolon that ends a statement.
fn end_statement(lexer: &mut Lexer, stmt: Stmt, Ghost(start): Ghost<nat>) -> (r: Result<
    Stmt,
    ParseError,
>)
    requires
        old(lexer).wf(),
        start <= old(lexer).index(),
    ensures
        same_tokens(*old(lexer), *final(lexer)),
        match ended(
            old(lexer).tokens(),
            start,
            (old(lexer).index() - start) as nat,
            stmt_view(stmt),
        ) {
            Ok((v, taken)) => r matches Ok(s) && stmt_view(s) == v && final(lexer).index() == start
                + taken + 1,
            Err(err) => r matches Err(e) && e == err,
        },
{
    match lexer.match_token(TokenType::SemiColon) {
        Err(e) => Err(e),
        Ok(()) => Ok(stmt),
    }
}

/// An inline assembly block.
fn inline_block(lexer: &mut Lexer) -> (r: Result<Stmt, ParseError>)
    requires
        old(lexer).wf(),
        type_at(old(lexer).tokens(), old(lexer).index()) is Asm,
    ensures
        same_tokens(*old(lexer), *final(lexer)),
        match parse_inline(old(lexer).tokens(), old(lexer).index()) {
            Ok((v, x)) => r matches Ok(s) && stmt_view(s) == v && final(lexer).index() == old(
                lexer,
            ).index() + 1 + x,
            Err(err) => r matches Err(e) && e == err,
        },
{
    let ghost tokens = lexer.tokens();
    lexer.advance();
    match lexer.match_token(TokenType::OCurly) {
        Err(e) => {
            return Err(e);
        },
        Ok(()) => {},
    }
    let ghost first = lexer.index();
    let mut instructs = Vec::<String>::new();
    assert(string_views(instructs@) =~= literals(tokens, first, 0));
    while lexer.get_token_type() == TokenType::String
        invariant
            same_tokens(*old(lexer), *lexer),
            tokens == old(lexer).tokens(),
            first == old(lexer).index() + 2,
            lexer.index() == first + instructs@.len(),
            string_run(tokens, first) == instructs@.len() + string_run(tokens, lexer.index()),
            string_views(instructs@) == literals(tokens, first, instructs@.len()),
        decreases left(tokens, lexer.index()),
    {
        let ghost before = instructs@;
        let literal = lexer.literal();
        instructs.push(literal);
        lexer.advance();
        assert forall|k: int| 0 <= k < instructs@.len() implies string_views(instructs@)[k]
            == literals(tokens, first, instructs@.len())[k] by {
            if k < before.len() {
                assert(string_views(before)[k] == literals(tokens, first, before.len())[k]);
            }
        }
        assert(string_views(instructs@) =~= literals(tokens, first, instructs@.len()));
    }
    match lexer.match_token(TokenType::CCurly) {
        Err(e) => Err(e),
        Ok(()) => Ok(Stmt::InlineAsm(instructs)),
    }
}

/// The outcome of parsing a statement is what the grammar gives.
pub open spec fn is_stmt(
    r: Result<Stmt, ParseError>,
    before: Lexer,
    after: Lexer,
    rule: Result<(StmtView, nat), ParseError>,
) -> bool {
    &&& same_tokens(before, after)
    &&& match rule {
        Ok((v, x)) => r matches Ok(s) && stmt_view(s) == v && after.index() == before.index() + 1
            + x,
        Err(err) => r matches Err(e) && e == err,
    }
}

/// A declaration as a statement.
fn declare_statement(lexer: &mut Lexer) -> (r: Result<Stmt, ParseError>)
    requires
        old(lexer).wf(),
    ensures
        is_stmt(
            r,
            *old(lexer),
            *final(lexer),
            parse_declare_stmt(old(lexer).tokens(), old(lexer).index()),
        ),
{
    let ghost start = lexer.index();
    match variable_declare(lexer) {
        Err(e) => Err(e),
        Ok(d) => end_statement(lexer, Stmt::VariableDecl(d), Ghost(start)),
    }
}

/// `print` or `return` with its expression.
fn keyword_statement(lexer: &mut Lexer) -> (r: Result<Stmt, ParseError>)
    requires
        old(lexer).wf(),
        old(lexer).index() < old(lexer).tokens().len(),
    ensures
        is_stmt(
            r,
            *old(lexer),
            *final(lexer),
            parse_keyword_stmt(old(lexer).tokens(), old(lexer).index()),
        ),
{
    let ghost start = lexer.index();
    let is_print = lexer.get_token_type() == TokenType::Print;
    lexer.advance();
    match expr(lexer) {
        Err(e) => Err(e),
        Ok(e) => {
            if is_print {
                end_statement(lexer, Stmt::Print(e), Ghost(start))
            } else {
                end_statement(lexer, Stmt::Return(e), Ghost(start))
            }
        },
    }
}

/// `break` or `continue`.
fn simple_statement(lexer: &mut Lexer, stmt: Stmt) -> (r: Result<Stmt, ParseError>)
    requires
        old(lexer).wf(),
        old(lexer).index() < old(lexer).tokens().len(),
    ensures
        is_stmt(
            r,
            *old(lexer),
            *final(lexer),
            ended(old(lexer).tokens(), old(lexer).index(), 1, stmt_view(stmt)),
        ),
{
    let ghost start = lexer.index();
    lexer.advance();
    end_statement(lexer, stmt, Ghost(start))
}

/// What follows the expression that a statement starts with.
fn statement_rest(lexer: &mut Lexer, left_expr: Expr) -> (r: Result<Stmt, ParseError>)
    requires
        old(lexer).wf(),
    ensures
        same_tokens(*old(lexer), *final(lexer)),
        match parse_statement_rest(old(lexer).tokens(), old(lexer).index(), expr_view(left_expr)) {
            Ok((v, taken)) => r matches Ok(s) && stmt_view(s) == v && final(lexer).index() == old(
                lexer,
            ).index() + taken,
            Err(err) => r matches Err(e) && e == err,
        },
{
    let ghost behind = lexer.index();
    let token_type = lexer.get_token_type();
    if token_type == TokenType::SemiColon {
        lexer.advance();
        Ok(Stmt::Expr(left_expr))
    } else if token_type.is_assgin_token() {
        let op_type = AssginOp::from_token_type(&token_type);
        lexer.advance();
        match expr(lexer) {
            Err(e) => Err(e),
            Ok(right_expr) => end_statement(
                lexer,
                Stmt::Assgin(Assgin { left: left_expr, right: right_expr, op: op_type }),
                Ghost(behind),
            ),
        }
    } else {
        Err(lexer.error(ParseErrorKind::Semicolon))
    }
}

/// A statement that starts with an expression.
fn expression_statement(lexer: &mut Lexer) -> (r: Result<Stmt, ParseError>)
    requires
        old(lexer).wf(),
    ensures
        is_stmt(
            r,
            *old(lexer),
            *final(lexer),
            parse_expr_stmt(old(lexer).tokens(), old(lexer).index()),
        ),
{
    match expr(lexer) {
        Err(e) => Err(e),
        Ok(left_expr) => statement_rest(lexer, left_expr),
    }
}

/// Parses a statement.
pub fn statement(lexer: &mut Lexer) -> (r: Result<Stmt, ParseError>)
    requires
        old(lexer).wf(),
    ensures
        is_stmt(
            r,
            *old(lexer),
            *final(lexer),
            parse_stmt(old(lexer).tokens(), old(lexer).index()),
        ),
    decreases left(old(lexer).tokens(), old(lexer).index()), 1nat,
{
    match lexer.get_token_type() {
        TokenType::Var => declare_statement(lexer),
        TokenType::Print => keyword_statement(lexer),
        TokenType::Break => simple_statement(lexer, Stmt::Break),
        TokenType::Continue => simple_statement(lexer, Stmt::Continue),
        TokenType::If => {
            match if_stmt(lexer) {
                Err(e) => Err(e),
                Ok(ifs) => Ok(Stmt::If(ifs)),
            }
        },
        TokenType::While => {
            match while_stmt(lexer) {
                Err(e) => Err(e),
                Ok(w) => Ok(Stmt::While(w)),
            }
        },
        TokenType::Return => keyword_statement(lexer),
        TokenType::Identifier => expression_statement(lexer),
        TokenType::Asm => inline_block(lexer),
        _ => Err(lexer.error(ParseErrorKind::Statement)),
    }
}

/// Parses a block: statements in braces.
pub fn block(lexer: &mut Lexer) -> (r: Result<Block, ParseError>)
    requires
        old(lexer).wf(),
    ensures
        same_tokens(*old(lexer), *final(lexer)),
        match parse_block(old(lexer).tokens(), old(lexer).index()) {
            Ok((v, x)) => r matches Ok(b) && block_view(b) == v && final(lexer).index() == old(
                lexer,
            ).index() + 1 + x,
            Err(err) => r matches Err(e) && e == err,
        },
    decreases left(old(lexer).tokens(), old(lexer).index()), 0nat,
{
    let ghost tokens = lexer.tokens();
    match lexer.match_token(TokenType::OCurly) {
        Err(e) => {
            return Err(e);
        },
        Ok(()) => {},
    }
    let ghost first = lexer.index();
    let mut stmts = Vec::<Stmt>::new();
    assert(first_stmt_views(stmts@, 0) =~= Seq::empty());
    loop
        invariant_except_break
            first <= lexer.index(),
            parse_stmts(tokens, first, Seq::empty()) == and_taken(
                parse_stmts(tokens, lexer.index(), first_stmt_views(stmts@, stmts@.len())),
                (lexer.index() - first) as nat,
            ),
        invariant
            same_tokens(*old(lexer), *lexer),
            tokens == old(lexer).tokens(),
            first == old(lexer).index() + 1,
            first <= tokens.len(),
            parse_block(tokens, old(lexer).index()) == parse_stmts(tokens, first, Seq::empty()),
        ensures
            parse_stmts(tokens, first, Seq::empty()) matches Ok((v, x)) && first_stmt_views(
                stmts@,
                stmts@.len(),
            ) == v && lexer.index() == first + x,
        decreases left(tokens, lexer.index()),
    {
        if lexer.get_token_type() == TokenType::CCurly {
            lexer.advance();
            break ;
        }
        if lexer.position() >= lexer.len() {
            return Err(lexer.error(ParseErrorKind::Statement));
        }
        let ghost before = stmts@;
        let stmt = match statement(lexer) {
            Err(e) => {
                return Err(e);
            },
            Ok(stmt) => stmt,
        };
        proof {
            lemma_stmt_views_push(before, stmt);
        }
        stmts.push(stmt);
    }
    Ok(Block { stmts })
}

/// What follows the first block of an `if`.
fn else_block(lexer: &mut Lexer) -> (r: Result<ElseBlock, ParseError>)
    requires
        old(lexer).wf(),
    ensures
        same_tokens(*old(lexer), *final(lexer)),
        match parse_else(old(lexer).tokens(), old(lexer).index()) {
            Ok((v, taken)) => r matches Ok(other) && else_view(other) == v && final(lexer).index()
                == old(lexer).index() + taken,
            Err(err) => r matches Err(e) && e == err,
        },
    decreases left(old(lexer).tokens(), old(lexer).index()), 0nat,
{
    if lexer.get_token_type() == TokenType::Else {
        lexer.advance();
        if lexer.get_token_type() == TokenType::If {
            match if_stmt(lexer) {
                Err(e) => Err(e),
                Ok(inner) => Ok(ElseBlock::Elif(inner)),
            }
        } else {
            match block(lexer) {
                Err(e) => Err(e),
                Ok(b) => Ok(ElseBlock::Else(b)),
            }
        }
    } else {
        Ok(ElseBlock::NoElse)
    }
}

/// Parses an `if` with what follows it.
pub fn if_stmt(lexer: &mut Lexer) -> (r: Result<IFStmt, ParseError>)
    requires
        old(lexer).wf(),
    ensures
        same_tokens(*old(lexer), *final(lexer)),
        match parse_if(old(lexer).tokens(), old(lexer).index()) {
            Ok((v, x)) => r matches Ok(ifs) && if_view(ifs) == v && final(lexer).index() == old(
                lexer,
            ).index() + 1 + x,
            Err(err) => r matches Err(e) && e == err,
        },
    decreases left(old(lexer).tokens(), old(lexer).index()), 0nat,
{
    match lexer.match_token(TokenType::If) {
        Err(e) => {
            return Err(e);
        },
        Ok(()) => {},
    }
    let condition = match expr(lexer) {
        Err(e) => {
            return Err(e);
        },
        Ok(condition) => condition,
    };
    let then_block = match block(lexer) {
        Err(e) => {
            return Err(e);
        },
        Ok(b) => b,
    };
    match else_block(lexer) {
        Err(e) => Err(e),
        Ok(other) => Ok(IFStmt { condition, then_block, else_block: Box::new(other) }),
    }
}

/// Parses a loop.
pub fn while_stmt(lexer: &mut Lexer) -> (r: Result<WhileStmt, ParseError>)
    requires
        old(lexer).wf(),
    ensures
        same_tokens(*old(lexer), *final(lexer)),
        match parse_while(old(lexer).tokens(), old(lexer).index()) {
            Ok((v, x)) => r matches Ok(w) && (expr_view(w.condition), block_view(w.block)) == v
                && final(lexer).index() == old(lexer).index() + 1 + x,
            Err(err) => r matches Err(e) && e == err,
        },
    decreases left(old(lexer).tokens(), old(lexer).index()), 0nat,
{
    match lexer.match_token(TokenType::While) {
        Err(e) => {
            return Err(e);
        },
        Ok(()) => {},
    }
    let condition = match expr(lexer) {
        Err(e) => {
            return Err(e);
        },
        Ok(condition) => condition,
    };
    match block(lexer) {
        Err(e) => Err(e),
        Ok(block) => Ok(WhileStmt { condition, block }),
    }
}

/// Parses the parameters of a function, in parentheses.
pub fn function_def_args(lexer: &mut Lexer) -> (r: Result<Vec<FunctionArg>, ParseError>)
    requires
        old(lexer).wf(),
    ensures
        same_tokens(*old(lexer), *final(lexer)),
        match parse_params(old(lexer).tokens(), old(lexer).index()) {
            Ok((v, x)) => r matches Ok(args) && arg_views(args@) == v && final(lexer).index()
                == old(lexer).index() + 1 + x,
            Err(err) => r matches Err(e) && e == err,
        },
{
    let ghost tokens = lexer.tokens();
    let mut args = Vec::<FunctionArg>::new();
    match lexer.match_token(TokenType::OParen) {
        Err(e) => {
            return Err(e);
        },
        Ok(()) => {},
    }
    let ghost first = lexer.index();
    assert(arg_views(args@) =~= Seq::empty());
    loop
        invariant_except_break
            first <= lexer.index(),
            parse_params_rest(tokens, first, Seq::empty()) == and_taken(
                parse_params_rest(tokens, lexer.index(), arg_views(args@)),
                (lexer.index() - first) as nat,
            ),
        invariant
            same_tokens(*old(lexer), *lexer),
            tokens == old(lexer).tokens(),
            first == old(lexer).index() + 1,
            parse_params(tokens, old(lexer).index()) == parse_params_rest(
                tokens,
                first,
                Seq::empty(),
            ),
        ensures
            parse_params_rest(tokens, first, Seq::empty()) matches Ok((v, x)) && arg_views(args@)
                == v && lexer.index() == first + x,
        decreases left(tokens, lexer.index()),
    {
        match lexer.get_token_type() {
            TokenType::CParen => {
                lexer.advance();
                break ;
            },
            TokenType::Identifier => {
                let ghost before = args@;
                let ident = lexer.literal();
                lexer.advance();
                let typedef = match type_def(lexer) {
                    Err(e) => {
                        return Err(e);
                    },
                    Ok(t) => t,
                };
                if lexer.get_token_type() == TokenType::Comma {
                    lexer.advance();
                }
                args.push(FunctionArg { ident, typedef });
                assert(arg_views(args@) =~= arg_views(before).push((ident@, typedef)));
            },
            _ => {
                return Err(lexer.error(ParseErrorKind::Parameter));
            },
        }
    }
    Ok(args)
}

/// Parses a function.
pub fn function_def(lexer: &mut Lexer) -> (r: Result<Function, ParseError>)
    requires
        old(lexer).wf(),
    ensures
        same_tokens(*old(lexer), *final(lexer)),
        match parse_function(old(lexer).tokens(), old(lexer).index()) {
            Ok((v, x)) => r matches Ok(f) && function_view(f) == v && final(lexer).index() == old(
                lexer,
            ).index() + 1 + x,
            Err(err) => r matches Err(e) && e == err,
        },
{
    match lexer.match_token(TokenType::Func) {
        Err(e) => {
            return Err(e);
        },
        Ok(()) => {},
    }
    let function_ident_token = lexer.get_token();
    if function_ident_token.is_empty() {
        return Err(lexer.error(ParseErrorKind::FunctionName));
    }
    match lexer.match_token(TokenType::Identifier) {
        Err(e) => {
            return Err(e);
        },
        Ok(()) => {},
    }
    let args = match function_def_args(lexer) {
        Err(e) => {
            return Err(e);
        },
        Ok(args) => args,
    };
    let ret_type = match optional_type(lexer) {
        Err(e) => {
            return Err(e);
        },
        Ok(t) => t,
    };
    match block(lexer) {
        Err(e) => Err(e),
        Ok(block) => Ok(Function { ident: function_ident_token.literal, ret_type, args, block }),
    }
}

/// Parses an import.
pub fn import_file(lexer: &mut Lexer) -> (r: Result<ProgramItem, ParseError>)
    requires
        old(lexer).wf(),
    ensures
        same_tokens(*old(lexer), *final(lexer)),
        match parse_import(old(lexer).tokens(), old(lexer).index()) {
            Ok((v, x)) => r matches Ok(item) && item_view(item) == v && final(lexer).index()
                == old(lexer).index() + 1 + x,
            Err(err) => r matches Err(e) && e == err,
        },
{
    let ghost tokens = lexer.tokens();
    match lexer.match_token(TokenType::Import) {
        Err(e) => {
            return Err(e);
        },
        Ok(()) => {},
    }
    let file_path = lexer.literal();
    match lexer.match_token(TokenType::String) {
        Err(e) => {
            return Err(e);
        },
        Ok(()) => {},
    }
    let mut idents_vec = Vec::<String>::new();
    assert(string_views(idents_vec@) =~= Seq::empty());
    if lexer.get_token_type() == TokenType::DoubleColon {
        lexer.advance();
        let ghost first = lexer.index();
        loop
            invariant_except_break
                first <= lexer.index(),
                parse_names(tokens, first, Seq::empty()) == and_taken(
                    parse_names(tokens, lexer.index(), string_views(idents_vec@)),
                    (lexer.index() - first) as nat,
                ),
            invariant
                same_tokens(*old(lexer), *lexer),
                tokens == old(lexer).tokens(),
                first == old(lexer).index() + 3,
                parse_import(tokens, old(lexer).index()) == match parse_names(
                    tokens,
                    first,
                    Seq::empty(),
                ) {
                    Err(e) => Err(e),
                    Ok((list, used)) => Ok(
                        (
                            ItemView::Import(
                                literal_at(tokens, old(lexer).index() + 1),
                                list,
                            ),
                            2 + used,
                        ),
                    ),
                },
            ensures
                parse_names(tokens, first, Seq::empty()) matches Ok((v, x)) && string_views(
                    idents_vec@,
                ) == v && lexer.index() == first + x,
            decreases left(tokens, lexer.index()),
        {
            let ghost before = idents_vec@;
            let ident = lexer.literal();
            match lexer.match_token(TokenType::Identifier) {
                Err(e) => {
                    return Err(e);
                },
                Ok(()) => {},
            }
            idents_vec.push(ident);
            assert(string_views(idents_vec@) =~= string_views(before).push(ident@));
            if lexer.get_token_type() == TokenType::Comma {
                lexer.advance();
            } else {
                break ;
            }
        }
    }
    Ok(ProgramItem::Import(file_path, idents_vec))
}

/// A top-level item.
fn program_item(lexer: &mut Lexer) -> (r: Result<ProgramItem, ParseError>)
    requires
        old(lexer).wf(),
    ensures
        same_tokens(*old(lexer), *final(lexer)),
        match parse_item(old(lexer).tokens(), old(lexer).index()) {
            Ok((v, x)) => r matches Ok(item) && item_view(item) == v && final(lexer).index()
                == old(lexer).index() + 1 + x,
            Err(err) => r matches Err(e) && e == err,
        },
{
    match lexer.get_token_type() {
        TokenType::Func => {
            match function_def(lexer) {
                Err(e) => Err(e),
                Ok(f) => Ok(ProgramItem::Func(f)),
            }
        },
        TokenType::Var => {
            match variable_declare(lexer) {
                Err(e) => Err(e),
                Ok(v) => Ok(ProgramItem::StaticVar(v)),
            }
        },
        TokenType::Import => import_file(lexer),
        _ => Err(lexer.error(ParseErrorKind::TopLevel)),
    }
}

/// Parses the items of a file, from the current token to the end of the
/// tokens.
pub fn program(lexer: &mut Lexer) -> (r: Result<ProgramFile, ParseError>)
    requires
        old(lexer).wf(),
    ensures
        same_tokens(*old(lexer), *final(lexer)),
        match parse_items(old(lexer).tokens(), old(lexer).index(), Seq::empty()) {
            Ok(v) => r matches Ok(file) && item_views(file.items@) == v && file.file_path@ == old(
                lexer,
            ).path() && file.shebang@ == Seq::<char>::empty() && type_at(
                final(lexer).tokens(),
                final(lexer).index(),
            ) is EOF,
            Err(err) => r matches Err(e) && e == err,
        },
{
    let ghost tokens = lexer.tokens();
    let ghost first = lexer.index();
    let mut items = Vec::<ProgramItem>::new();
    assert(item_views(items@) =~= Seq::empty());
    loop
        invariant_except_break
            parse_items(tokens, first, Seq::empty()) == parse_items(
                tokens,
                lexer.index(),
                item_views(items@),
            ),
        invariant
            same_tokens(*old(lexer), *lexer),
            tokens == old(lexer).tokens(),
            first == old(lexer).index(),
        ensures
            parse_items(tokens, first, Seq::empty()) == Ok::<Seq<ItemView>, ParseError>(
                item_views(items@),
            ),
            type_at(tokens, lexer.index()) is EOF,
        decreases left(tokens, lexer.index()),
    {
        if lexer.get_token().is_empty() {
            break ;
        }
        let ghost before = items@;
        let item = match program_item(lexer) {
            Err(e) => {
                return Err(e);
            },
            Ok(item) => item,
        };
        items.push(item);
        assert(item_views(items@) =~= item_views(before).push(item_view(item)));
    }
    Ok(ProgramFile { shebang: String::new(), file_path: lexer.file_path().clone(), items })
}

/// Why a source text is not a program.
#[derive(Clone, Copy, Debug, PartialEq, Eq, Structural)]
pub enum SourceError {
    /// It is not made of tokens.
    Lex(LexError),
    /// Its tokens are not the items of a file.
    Parse(ParseError),
}

/// Parses the text of the source file at `file_path`: its tokens, and of
/// them the items of the file.
pub fn parse_source(file_path: String, source: &str) -> (r: Result<ProgramFile, SourceError>)
    ensures
        match tokens_of(source@) {
            Err(e) => r matches Err(err) && err == SourceError::Lex(e),
            Ok(tokens) => match parse_items(tokens, 0, Seq::empty()) {
                Ok(items) => r matches Ok(file) && file_view(file) == (FileView {
                    shebang: Seq::empty(),
                    file_path: file_path@,
                    items,
                }),
                Err(e) => r matches Err(err) && err == SourceError::Parse(e),
            },
        },
{
    match tokenize(source) {
        Err(e) => Err(SourceError::Lex(e)),
        Ok(tokens) => {
            let mut lexer = Lexer::new(file_path, tokens);
            match program(&mut lexer) {
                Err(e) => Err(SourceError::Parse(e)),
                Ok(file) => Ok(file),
            }
        },
    }
}

} // verus!

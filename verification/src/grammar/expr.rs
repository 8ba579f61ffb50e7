//! Expressions: comparisons and sums of terms, terms of factors.

use vstd::prelude::*;
use crate::lexer::{fail, literal_at, type_at, ParseError, ParseErrorKind, TokenType, TokenView};
use crate::parser::expr::{CompareOp, ExprView, Op, UnaryOp};

verus! {

/// The tokens from position `i` on, counted.
pub open spec fn left(tokens: Seq<TokenView>, i: nat) -> nat {
    if i <= tokens.len() {
        (tokens.len() - i) as nat
    } else {
        0
    }
}

/// The operators that join terms: `+`, `-`, `&`, `|`.
pub open spec fn is_binary_op(t: TokenType) -> bool {
    t is Plus || t is Minus || t is And || t is Or
}

/// The operators that join factors: `*`, `/`, `%`, `<<`, `>>`.
pub open spec fn is_term_op(t: TokenType) -> bool {
    t is Multi || t is Devide || t is Mod || t is Lsh || t is Rsh
}

/// The comparisons: `==`, `!=`, `>`, `<`, `>=`, `<=`.
pub open spec fn is_compare_op(t: TokenType) -> bool {
    t is DoubleEq || t is NotEq || t is Bigger || t is Smaller || t is BiggerEq || t is SmallerEq
}

/// The operator that a token stands for between two operands.
pub open spec fn op_of(t: TokenType) -> Op {
    match t {
        TokenType::Minus => Op::Sub,
        TokenType::Multi => Op::Multi,
        TokenType::Devide => Op::Devide,
        TokenType::Mod => Op::Mod,
        TokenType::Or => Op::Or,
        TokenType::And => Op::And,
        TokenType::Lsh => Op::Lsh,
        TokenType::Rsh => Op::Rsh,
        _ => Op::Plus,
    }
}

/// The operator that a token stands for before an operand.
pub open spec fn unary_op_of(t: TokenType) -> UnaryOp {
    match t {
        TokenType::Minus => UnaryOp::Minus,
        TokenType::Not => UnaryOp::Not,
        _ => UnaryOp::Plus,
    }
}

/// The comparison that a token stands for.
pub open spec fn compare_op_of(t: TokenType) -> CompareOp {
    match t {
        TokenType::NotEq => CompareOp::NotEq,
        TokenType::Bigger => CompareOp::Bigger,
        TokenType::Smaller => CompareOp::Smaller,
        TokenType::BiggerEq => CompareOp::BiggerEq,
        TokenType::SmallerEq => CompareOp::SmallerEq,
        _ => CompareOp::Eq,
    }
}

/// The byte that a character literal stands for: the low eight bits of its
/// code.
pub open spec fn char_byte(c: char) -> u8 {
    (c as u32 % 256) as u8
}

/// The join of two operands by the operator `t`.
pub open spec fn join(left: ExprView, t: TokenType, right: ExprView) -> ExprView {
    if is_compare_op(t) {
        ExprView::Compare(Box::new(left), compare_op_of(t), Box::new(right))
    } else {
        ExprView::Binary(Box::new(left), op_of(t), Box::new(right))
    }
}

/// A factor: an expression in parentheses, a factor under a unary operator,
/// a literal, `ptr` and an expression, or a name, which alone is a
/// variable, before `(` a call and before `[` an element.
pub open spec fn parse_factor(tokens: Seq<TokenView>, i: nat) -> Result<(ExprView, nat), ParseError>
    decreases left(tokens, i), 0nat,
{
    let t = type_at(tokens, i);
    match t {
        TokenType::OParen => match parse_expr(tokens, i + 1) {
            Err(e) => Err(e),
            Ok((v, x)) => if type_at(tokens, i + 2 + x) is CParen {
                Ok((v, 2 + x))
            } else {
                Err(fail(ParseErrorKind::Expected(TokenType::CParen), tokens, i + 2 + x))
            },
        },
        TokenType::Plus | TokenType::Minus | TokenType::Not => match parse_factor(tokens, i + 1) {
            Err(e) => Err(e),
            Ok((v, x)) => Ok((ExprView::Unary(unary_op_of(t), Box::new(v)), 1 + x)),
        },
        TokenType::String => Ok((ExprView::String(literal_at(tokens, i)), 0)),
        TokenType::Ptr => match parse_expr(tokens, i + 1) {
            Err(e) => Err(e),
            Ok((v, x)) => Ok((ExprView::Ptr(Box::new(v)), 1 + x)),
        },
        TokenType::True => Ok((ExprView::Int(1), 0)),
        TokenType::False => Ok((ExprView::Int(0), 0)),
        TokenType::Char(c) => Ok((ExprView::Char(char_byte(c)), 0)),
        TokenType::Int(v) => Ok((ExprView::Int(v), 0)),
        TokenType::Identifier => match type_at(tokens, i + 1) {
            TokenType::OParen => match parse_call_args(tokens, i + 1) {
                Err(e) => Err(e),
                Ok((args, x)) => Ok((ExprView::FunctionCall(literal_at(tokens, i), args), 1 + x)),
            },
            TokenType::OBracket => match parse_array_indexer(tokens, i + 1) {
                Err(e) => Err(e),
                Ok((v, x)) => Ok(
                    (ExprView::ArrayIndex(literal_at(tokens, i), Box::new(v)), 1 + x),
                ),
            },
            _ => Ok((ExprView::Variable(literal_at(tokens, i)), 0)),
        },
        _ => Err(fail(ParseErrorKind::Expression, tokens, i)),
    }
}

/// What follows a term: as long as one of `*`, `/`, `%`, `<<`, `>>` comes,
/// a factor that is joined to what stands on the left. Returns the tree and
/// the number of tokens taken.
pub open spec fn parse_term_rest(tokens: Seq<TokenView>, i: nat, first: ExprView) -> Result<
    (ExprView, nat),
    ParseError,
>
    decreases left(tokens, i), 0nat,
{
    let t = type_at(tokens, i);
    if is_term_op(t) {
        match parse_factor(tokens, i + 1) {
            Err(e) => Err(e),
            Ok((right, x)) => match parse_term_rest(tokens, i + 2 + x, join(first, t, right)) {
                Err(e) => Err(e),
                Ok((v, used)) => Ok((v, 2 + x + used)),
            },
        }
    } else {
        Ok((first, 0))
    }
}

/// A term: factors joined by `*`, `/`, `%`, `<<`, `>>`, from the left.
pub open spec fn parse_term(tokens: Seq<TokenView>, i: nat) -> Result<(ExprView, nat), ParseError>
    decreases left(tokens, i), 1nat,
{
    match parse_factor(tokens, i) {
        Err(e) => Err(e),
        Ok((first, x)) => match parse_term_rest(tokens, i + 1 + x, first) {
            Err(e) => Err(e),
            Ok((v, used)) => Ok((v, x + used)),
        },
    }
}

/// What follows the first term of an expression: as long as one of `+`,
/// `-`, `&`, `|` or a comparison comes, a term that is joined to what
/// stands on the left. Returns the tree and the number of tokens taken.
pub open spec fn parse_expr_rest(tokens: Seq<TokenView>, i: nat, first: ExprView) -> Result<
    (ExprView, nat),
    ParseError,
>
    decreases left(tokens, i), 0nat,
{
    let t = type_at(tokens, i);
    if is_binary_op(t) || is_compare_op(t) {
        match parse_term(tokens, i + 1) {
            Err(e) => Err(e),
            Ok((right, x)) => match parse_expr_rest(tokens, i + 2 + x, join(first, t, right)) {
                Err(e) => Err(e),
                Ok((v, used)) => Ok((v, 2 + x + used)),
            },
        }
    } else {
        Ok((first, 0))
    }
}

/// An expression: terms joined by `+`, `-`, `&`, `|` and by comparisons,
/// all of one rank, from the left.
pub open spec fn parse_expr(tokens: Seq<TokenView>, i: nat) -> Result<(ExprView, nat), ParseError>
    decreases left(tokens, i), 2nat,
{
    match parse_term(tokens, i) {
        Err(e) => Err(e),
        Ok((first, x)) => match parse_expr_rest(tokens, i + 1 + x, first) {
            Err(e) => Err(e),
            Ok((v, used)) => Ok((v, x + used)),
        },
    }
}

/// The index of an element: an expression in square brackets.
pub open spec fn parse_array_indexer(tokens: Seq<TokenView>, i: nat) -> Result<
    (ExprView, nat),
    ParseError,
>
    decreases left(tokens, i), 0nat,
{
    if !(type_at(tokens, i) is OBracket) {
        Err(fail(ParseErrorKind::Expected(TokenType::OBracket), tokens, i))
    } else {
        match parse_expr(tokens, i + 1) {
            Err(e) => Err(e),
            Ok((v, x)) => if type_at(tokens, i + 2 + x) is CBracket {
                Ok((v, 2 + x))
            } else {
                Err(fail(ParseErrorKind::Expected(TokenType::CBracket), tokens, i + 2 + x))
            },
        }
    }
}

/// The arguments of a call from position `i` on, up to the closing
/// parenthesis; `before` are the arguments before them. A comma may follow
/// an argument. Returns all arguments and the number of tokens taken.
pub open spec fn parse_args_rest(tokens: Seq<TokenView>, i: nat, before: Seq<ExprView>) -> Result<
    (Seq<ExprView>, nat),
    ParseError,
>
    decreases left(tokens, i), 3nat,
{
    if type_at(tokens, i) is CParen {
        Ok((before, 1))
    } else if i >= tokens.len() {
        Err(fail(ParseErrorKind::Expression, tokens, i))
    } else {
        match parse_expr(tokens, i) {
            Err(e) => Err(e),
            Ok((v, x)) => {
                let comma: nat = if type_at(tokens, i + 1 + x) is Comma {
                    1
                } else {
                    0
                };
                match parse_args_rest(tokens, i + 1 + x + comma, before.push(v)) {
                    Err(e) => Err(e),
                    Ok((all, used)) => Ok((all, 1 + x + comma + used)),
                }
            },
        }
    }
}

/// The arguments of a call, in parentheses.
pub open spec fn parse_call_args(tokens: Seq<TokenView>, i: nat) -> Result<
    (Seq<ExprView>, nat),
    ParseError,
>
    decreases left(tokens, i), 0nat,
{
    if !(type_at(tokens, i) is OParen) {
        Err(fail(ParseErrorKind::Expected(TokenType::OParen), tokens, i))
    } else {
        parse_args_rest(tokens, i + 1, Seq::empty())
    }
}

} // verus!

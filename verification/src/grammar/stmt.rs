//! Types, declarations, statements and blocks.

use vstd::prelude::*;
use crate::grammar::expr::{left, parse_expr};
use crate::lexer::{fail, literal_at, type_at, ParseError, ParseErrorKind, TokenType, TokenView};
use crate::parser::expr::ExprView;
use crate::parser::stmt::{AssginOp, DeclareView, ElseView, IfView, StmtView, VariableType};

verus! {

/// The type that a name stands for: `int`, `char` or `bool`.
pub open spec fn type_of_name(name: Seq<char>) -> Option<VariableType> {
    if name == "int"@ {
        Some(VariableType::Int)
    } else if name == "char"@ {
        Some(VariableType::Char)
    } else if name == "bool"@ {
        Some(VariableType::Bool)
    } else {
        None
    }
}

/// The element type of an array, at position `i`: a name, or a type behind
/// `@`. Returns the type and the number of tokens taken.
pub open spec fn parse_element_type(tokens: Seq<TokenView>, i: nat) -> Result<
    (VariableType, nat),
    ParseError,
>
    decreases left(tokens, i), 2nat,
{
    match type_at(tokens, i) {
        TokenType::Identifier => match type_of_name(literal_at(tokens, i)) {
            Some(t) => Ok((t, 1)),
            None => Err(fail(ParseErrorKind::Type, tokens, i)),
        },
        TokenType::ATSign => match parse_type(tokens, i) {
            Err(e) => Err(e),
            Ok((t, x)) => Ok((t, 1 + x)),
        },
        _ => Err(fail(ParseErrorKind::TypeName, tokens, i)),
    }
}

/// What follows the element type of an array, at position `i`: a comma,
/// then the length, or a question mark, which makes the type a pointer,
/// and the closing bracket. Returns the type and the number of tokens
/// taken.
pub open spec fn parse_array_length(tokens: Seq<TokenView>, i: nat, element: VariableType) -> Result<
    (VariableType, nat),
    ParseError,
> {
    if !(type_at(tokens, i) is Comma) {
        Err(fail(ParseErrorKind::Expected(TokenType::Comma), tokens, i))
    } else {
        match type_at(tokens, i + 1) {
            TokenType::Int(length) => if length < 0 {
                Err(fail(ParseErrorKind::ArrayLength, tokens, i + 1))
            } else if !(type_at(tokens, i + 2) is CBracket) {
                Err(fail(ParseErrorKind::Expected(TokenType::CBracket), tokens, i + 2))
            } else {
                Ok((VariableType::Array(Box::new(element), length as usize), 3))
            },
            TokenType::QMark => if !(type_at(tokens, i + 2) is CBracket) {
                Err(fail(ParseErrorKind::Expected(TokenType::CBracket), tokens, i + 2))
            } else {
                Ok((VariableType::Pointer, 3))
            },
            _ => Err(fail(ParseErrorKind::ArrayLength, tokens, i + 1)),
        }
    }
}

/// A type: `@` and then `ptr`, the name of a type, or an array in square
/// brackets.
pub open spec fn parse_type(tokens: Seq<TokenView>, i: nat) -> Result<(VariableType, nat), ParseError>
    decreases left(tokens, i), 1nat,
{
    if !(type_at(tokens, i) is ATSign) {
        Err(fail(ParseErrorKind::Expected(TokenType::ATSign), tokens, i))
    } else {
        match type_at(tokens, i + 1) {
            TokenType::Ptr => Ok((VariableType::Pointer, 1)),
            TokenType::Identifier => match type_of_name(literal_at(tokens, i + 1)) {
                Some(t) => Ok((t, 1)),
                None => Err(fail(ParseErrorKind::Type, tokens, i + 1)),
            },
            TokenType::OBracket => match parse_element_type(tokens, i + 2) {
                Err(e) => Err(e),
                Ok((element, n)) => match parse_array_length(tokens, i + 2 + n, element) {
                    Err(e) => Err(e),
                    Ok((t, m)) => Ok((t, 1 + n + m)),
                },
            },
            _ => Err(fail(ParseErrorKind::Type, tokens, i + 1)),
        }
    }
}

/// The type of a declaration, if one stands at position `i`. Returns it and
/// the number of tokens taken.
pub open spec fn parse_optional_type(tokens: Seq<TokenView>, i: nat) -> Result<
    (Option<VariableType>, nat),
    ParseError,
> {
    if type_at(tokens, i) is ATSign {
        match parse_type(tokens, i) {
            Err(e) => Err(e),
            Ok((t, x)) => Ok((Some(t), 1 + x)),
        }
    } else {
        Ok((None, 0))
    }
}

/// A declaration: `var`, the name, a type if there is one, and then `=`
/// and the initial value of a variable, `:=` and the value of a constant,
/// `::` and the value of a static constant, or nothing before the
/// semicolon, which is not taken.
pub open spec fn parse_declare(tokens: Seq<TokenView>, i: nat) -> Result<
    (DeclareView, nat),
    ParseError,
> {
    if !(type_at(tokens, i) is Var) {
        Err(fail(ParseErrorKind::Expected(TokenType::Var), tokens, i))
    } else if !(type_at(tokens, i + 1) is Identifier) {
        Err(fail(ParseErrorKind::Expected(TokenType::Identifier), tokens, i + 1))
    } else {
        match parse_optional_type(tokens, i + 2) {
            Err(e) => Err(e),
            Ok((v_type, n)) => {
                let p = i + 2 + n;
                let ident = literal_at(tokens, i + 1);
                match type_at(tokens, p) {
                    TokenType::DoubleColon => match parse_expr(tokens, p + 1) {
                        Err(e) => Err(e),
                        Ok((init, x)) => Ok(
                            (
                                DeclareView {
                                    mutable: false,
                                    is_static: true,
                                    ident,
                                    v_type,
                                    init_value: Some(init),
                                },
                                n + 3 + x,
                            ),
                        ),
                    },
                    TokenType::ColonEq => match parse_expr(tokens, p + 1) {
                        Err(e) => Err(e),
                        Ok((init, x)) => Ok(
                            (
                                DeclareView {
                                    mutable: false,
                                    is_static: false,
                                    ident,
                                    v_type,
                                    init_value: Some(init),
                                },
                                n + 3 + x,
                            ),
                        ),
                    },
                    TokenType::Eq => match parse_expr(tokens, p + 1) {
                        Err(e) => Err(e),
                        Ok((init, x)) => Ok(
                            (
                                DeclareView {
                                    mutable: true,
                                    is_static: false,
                                    ident,
                                    v_type,
                                    init_value: Some(init),
                                },
                                n + 3 + x,
                            ),
                        ),
                    },
                    TokenType::SemiColon => Ok(
                        (
                            DeclareView {
                                mutable: true,
                                is_static: false,
                                ident,
                                v_type,
                                init_value: None,
                            },
                            n + 1,
                        ),
                    ),
                    _ => Err(fail(ParseErrorKind::Assignment, tokens, p)),
                }
            },
        }
    }
}

/// The assignment that a token stands for.
pub open spec fn assign_op_of(t: TokenType) -> AssginOp {
    match t {
        TokenType::PlusEq => AssginOp::PlusEq,
        TokenType::SubEq => AssginOp::SubEq,
        TokenType::MultiEq => AssginOp::MultiEq,
        TokenType::DivEq => AssginOp::DevideEq,
        TokenType::ModEq => AssginOp::ModEq,
        _ => AssginOp::Eq,
    }
}

/// The number of strings in a row from position `i` on.
pub open spec fn string_run(tokens: Seq<TokenView>, i: nat) -> nat
    decreases left(tokens, i),
{
    if i < tokens.len() && type_at(tokens, i) is String {
        1 + string_run(tokens, i + 1)
    } else {
        0
    }
}

/// The text of the `n` tokens from position `i` on.
pub open spec fn literals(tokens: Seq<TokenView>, i: nat, n: nat) -> Seq<Seq<char>> {
    Seq::new(n, |k: int| literal_at(tokens, (i + k) as nat))
}

/// The semicolon that ends a statement which took `taken` tokens from
/// position `i` on.
pub open spec fn ended(tokens: Seq<TokenView>, i: nat, taken: nat, s: StmtView) -> Result<
    (StmtView, nat),
    ParseError,
> {
    if type_at(tokens, i + taken) is SemiColon {
        Ok((s, taken))
    } else {
        Err(fail(ParseErrorKind::Expected(TokenType::SemiColon), tokens, i + taken))
    }
}

/// What follows the expression that a statement starts with, at position
/// `i`: the semicolon, or an assignment, its right side and the semicolon.
/// Returns the statement and the number of tokens taken.
pub open spec fn parse_statement_rest(tokens: Seq<TokenView>, i: nat, first: ExprView) -> Result<
    (StmtView, nat),
    ParseError,
> {
    let t = type_at(tokens, i);
    if t is SemiColon {
        Ok((StmtView::Expr(first), 1))
    } else if t.assigns() {
        match parse_expr(tokens, i + 1) {
            Err(e) => Err(e),
            Ok((right, y)) => match ended(
                tokens,
                i,
                2 + y,
                StmtView::Assgin(first, assign_op_of(t), right),
            ) {
                Err(e) => Err(e),
                Ok((s, taken)) => Ok((s, taken + 1)),
            },
        }
    } else {
        Err(fail(ParseErrorKind::Semicolon, tokens, i))
    }
}

/// An inline assembly block: `asm`, and strings in braces.
pub open spec fn parse_inline(tokens: Seq<TokenView>, i: nat) -> Result<(StmtView, nat), ParseError> {
    if !(type_at(tokens, i + 1) is OCurly) {
        Err(fail(ParseErrorKind::Expected(TokenType::OCurly), tokens, i + 1))
    } else {
        let n = string_run(tokens, i + 2);
        if !(type_at(tokens, i + 2 + n) is CCurly) {
            Err(fail(ParseErrorKind::Expected(TokenType::CCurly), tokens, i + 2 + n))
        } else {
            Ok((StmtView::InlineAsm(literals(tokens, i + 2, n)), 2 + n))
        }
    }
}

/// A declaration as a statement, with its semicolon.
pub open spec fn parse_declare_stmt(tokens: Seq<TokenView>, i: nat) -> Result<
    (StmtView, nat),
    ParseError,
> {
    match parse_declare(tokens, i) {
        Err(e) => Err(e),
        Ok((d, x)) => ended(tokens, i, 1 + x, StmtView::VariableDecl(d)),
    }
}

/// `print` or `return`, an expression and the semicolon.
pub open spec fn parse_keyword_stmt(tokens: Seq<TokenView>, i: nat) -> Result<
    (StmtView, nat),
    ParseError,
> {
    match parse_expr(tokens, i + 1) {
        Err(e) => Err(e),
        Ok((e, x)) => ended(
            tokens,
            i,
            2 + x,
            if type_at(tokens, i) is Print {
                StmtView::Print(e)
            } else {
                StmtView::Return(e)
            },
        ),
    }
}

/// A statement that starts with an expression: a call or an assignment.
pub open spec fn parse_expr_stmt(tokens: Seq<TokenView>, i: nat) -> Result<
    (StmtView, nat),
    ParseError,
> {
    match parse_expr(tokens, i) {
        Err(e) => Err(e),
        Ok((first, x)) => match parse_statement_rest(tokens, i + 1 + x, first) {
            Err(e) => Err(e),
            Ok((s, taken)) => Ok((s, x + taken)),
        },
    }
}

/// A statement.
pub open spec fn parse_stmt(tokens: Seq<TokenView>, i: nat) -> Result<(StmtView, nat), ParseError>
    decreases left(tokens, i), 1nat,
{
    match type_at(tokens, i) {
        TokenType::Var => parse_declare_stmt(tokens, i),
        TokenType::Print => parse_keyword_stmt(tokens, i),
        TokenType::Break => ended(tokens, i, 1, StmtView::Break),
        TokenType::Continue => ended(tokens, i, 1, StmtView::Continue),
        TokenType::If => match parse_if(tokens, i) {
            Err(e) => Err(e),
            Ok((v, x)) => Ok((StmtView::If(v), x)),
        },
        TokenType::While => match parse_while(tokens, i) {
            Err(e) => Err(e),
            Ok(((condition, body), x)) => Ok((StmtView::While(condition, body), x)),
        },
        TokenType::Return => parse_keyword_stmt(tokens, i),
        TokenType::Identifier => parse_expr_stmt(tokens, i),
        TokenType::Asm => parse_inline(tokens, i),
        _ => Err(fail(ParseErrorKind::Statement, tokens, i)),
    }
}

/// The statements of a block from position `i` on, up to the closing
/// brace; `before` are the statements before them. Returns all statements
/// and the number of tokens taken.
pub open spec fn parse_stmts(tokens: Seq<TokenView>, i: nat, before: Seq<StmtView>) -> Result<
    (Seq<StmtView>, nat),
    ParseError,
>
    decreases left(tokens, i), 2nat,
{
    if type_at(tokens, i) is CCurly {
        Ok((before, 1))
    } else if i >= tokens.len() {
        Err(fail(ParseErrorKind::Statement, tokens, i))
    } else {
        match parse_stmt(tokens, i) {
            Err(e) => Err(e),
            Ok((s, x)) => match parse_stmts(tokens, i + 1 + x, before.push(s)) {
                Err(e) => Err(e),
                Ok((all, used)) => Ok((all, 1 + x + used)),
            },
        }
    }
}

/// A block: statements in braces.
pub open spec fn parse_block(tokens: Seq<TokenView>, i: nat) -> Result<
    (Seq<StmtView>, nat),
    ParseError,
>
    decreases left(tokens, i), 0nat,
{
    if !(type_at(tokens, i) is OCurly) {
        Err(fail(ParseErrorKind::Expected(TokenType::OCurly), tokens, i))
    } else {
        parse_stmts(tokens, i + 1, Seq::empty())
    }
}

/// What follows the first block of an `if`, at position `i`: nothing, or
/// `else` and then another `if` or a block. Returns it and the number of
/// tokens taken.
pub open spec fn parse_else(tokens: Seq<TokenView>, i: nat) -> Result<(ElseView, nat), ParseError>
    decreases left(tokens, i), 0nat,
{
    if !(type_at(tokens, i) is Else) {
        Ok((ElseView::NoElse, 0))
    } else if type_at(tokens, i + 1) is If {
        match parse_if(tokens, i + 1) {
            Err(e) => Err(e),
            Ok((inner, z)) => Ok((ElseView::Elif(inner), 2 + z)),
        }
    } else {
        match parse_block(tokens, i + 1) {
            Err(e) => Err(e),
            Ok((b, z)) => Ok((ElseView::Else(b), 2 + z)),
        }
    }
}

/// An `if`: the condition, a block, and what follows it.
pub open spec fn parse_if(tokens: Seq<TokenView>, i: nat) -> Result<(IfView, nat), ParseError>
    decreases left(tokens, i), 0nat,
{
    if !(type_at(tokens, i) is If) {
        Err(fail(ParseErrorKind::Expected(TokenType::If), tokens, i))
    } else {
        match parse_expr(tokens, i + 1) {
            Err(e) => Err(e),
            Ok((condition, x)) => match parse_block(tokens, i + 2 + x) {
                Err(e) => Err(e),
                Ok((then_block, y)) => match parse_else(tokens, i + 3 + x + y) {
                    Err(e) => Err(e),
                    Ok((other, z)) => Ok(
                        (
                            IfView { condition, then_block, else_block: Box::new(other) },
                            2 + x + y + z,
                        ),
                    ),
                },
            },
        }
    }
}

/// A loop: `while`, the condition and the body.
pub open spec fn parse_while(tokens: Seq<TokenView>, i: nat) -> Result<
    ((ExprView, Seq<StmtView>), nat),
    ParseError,
>
    decreases left(tokens, i), 0nat,
{
    if !(type_at(tokens, i) is While) {
        Err(fail(ParseErrorKind::Expected(TokenType::While), tokens, i))
    } else {
        match parse_expr(tokens, i + 1) {
            Err(e) => Err(e),
            Ok((condition, x)) => match parse_block(tokens, i + 2 + x) {
                Err(e) => Err(e),
                Ok((body, y)) => Ok(((condition, body), 2 + x + y)),
            },
        }
    }
}

} // verus!

//! Functions, imports and whole files.

use vstd::prelude::*;
use crate::grammar::expr::left;
use crate::grammar::stmt::{parse_block, parse_declare, parse_optional_type, parse_type};
use crate::lexer::{fail, literal_at, type_at, ParseError, ParseErrorKind, TokenType, TokenView};
use crate::parser::function::FunctionView;
use crate::parser::program::ItemView;
use crate::parser::stmt::VariableType;

verus! {

/// The parameters of a function from position `i` on, up to the closing
/// parenthesis; `before` are the parameters before them. Each is a name and
/// a type; a comma may follow. Returns all parameters and the number of
/// tokens taken.
pub open spec fn parse_params_rest(
    tokens: Seq<TokenView>,
    i: nat,
    before: Seq<(Seq<char>, VariableType)>,
) -> Result<(Seq<(Seq<char>, VariableType)>, nat), ParseError>
    decreases left(tokens, i),
{
    match type_at(tokens, i) {
        TokenType::CParen => Ok((before, 1)),
        TokenType::Identifier => match parse_type(tokens, i + 1) {
            Err(e) => Err(e),
            Ok((t, x)) => {
                let comma: nat = if type_at(tokens, i + 2 + x) is Comma {
                    1
                } else {
                    0
                };
                match parse_params_rest(
                    tokens,
                    i + 2 + x + comma,
                    before.push((literal_at(tokens, i), t)),
                ) {
                    Err(e) => Err(e),
                    Ok((all, used)) => Ok((all, 2 + x + comma + used)),
                }
            },
        },
        _ => Err(fail(ParseErrorKind::Parameter, tokens, i)),
    }
}

/// The parameters of a function, in parentheses.
pub open spec fn parse_params(tokens: Seq<TokenView>, i: nat) -> Result<
    (Seq<(Seq<char>, VariableType)>, nat),
    ParseError,
> {
    if !(type_at(tokens, i) is OParen) {
        Err(fail(ParseErrorKind::Expected(TokenType::OParen), tokens, i))
    } else {
        parse_params_rest(tokens, i + 1, Seq::empty())
    }
}

/// A function: `func`, the name, the parameters, the type of the result if
/// it has one, and the body.
pub open spec fn parse_function(tokens: Seq<TokenView>, i: nat) -> Result<
    (FunctionView, nat),
    ParseError,
> {
    if !(type_at(tokens, i) is Func) {
        Err(fail(ParseErrorKind::Expected(TokenType::Func), tokens, i))
    } else if type_at(tokens, i + 1) is EOF {
        Err(fail(ParseErrorKind::FunctionName, tokens, i + 1))
    } else if !(type_at(tokens, i + 1) is Identifier) {
        Err(fail(ParseErrorKind::Expected(TokenType::Identifier), tokens, i + 1))
    } else {
        match parse_params(tokens, i + 2) {
            Err(e) => Err(e),
            Ok((args, x)) => match parse_optional_type(tokens, i + 3 + x) {
                Err(e) => Err(e),
                Ok((ret_type, n)) => match parse_block(tokens, i + 3 + x + n) {
                    Err(e) => Err(e),
                    Ok((block, y)) => Ok(
                        (
                            FunctionView { ident: literal_at(tokens, i + 1), args, ret_type, block },
                            3 + x + n + y,
                        ),
                    ),
                },
            },
        }
    }
}

/// The names that an import lists, from position `i` on, with commas in
/// between; `before` are the names before them. Returns all names and the
/// number of tokens taken.
pub open spec fn parse_names(tokens: Seq<TokenView>, i: nat, before: Seq<Seq<char>>) -> Result<
    (Seq<Seq<char>>, nat),
    ParseError,
>
    decreases left(tokens, i),
{
    if !(type_at(tokens, i) is Identifier) {
        Err(fail(ParseErrorKind::Expected(TokenType::Identifier), tokens, i))
    } else if type_at(tokens, i + 1) is Comma {
        match parse_names(tokens, i + 2, before.push(literal_at(tokens, i))) {
            Err(e) => Err(e),
            Ok((all, used)) => Ok((all, 2 + used)),
        }
    } else {
        Ok((before.push(literal_at(tokens, i)), 1))
    }
}

/// An import: `import`, the path as a string, and behind `::` the names of
/// the functions that are taken.
pub open spec fn parse_import(tokens: Seq<TokenView>, i: nat) -> Result<(ItemView, nat), ParseError> {
    if !(type_at(tokens, i) is Import) {
        Err(fail(ParseErrorKind::Expected(TokenType::Import), tokens, i))
    } else if !(type_at(tokens, i + 1) is String) {
        Err(fail(ParseErrorKind::Expected(TokenType::String), tokens, i + 1))
    } else if type_at(tokens, i + 2) is DoubleColon {
        match parse_names(tokens, i + 3, Seq::empty()) {
            Err(e) => Err(e),
            Ok((list, used)) => Ok((ItemView::Import(literal_at(tokens, i + 1), list), 2 + used)),
        }
    } else {
        Ok((ItemView::Import(literal_at(tokens, i + 1), Seq::empty()), 1))
    }
}

/// A top-level item: a function, a variable or an import.
pub open spec fn parse_item(tokens: Seq<TokenView>, i: nat) -> Result<(ItemView, nat), ParseError> {
    match type_at(tokens, i) {
        TokenType::Func => match parse_function(tokens, i) {
            Err(e) => Err(e),
            Ok((f, x)) => Ok((ItemView::Func(f), x)),
        },
        TokenType::Var => match parse_declare(tokens, i) {
            Err(e) => Err(e),
            Ok((d, x)) => Ok((ItemView::StaticVar(d), x)),
        },
        TokenType::Import => parse_import(tokens, i),
        _ => Err(fail(ParseErrorKind::TopLevel, tokens, i)),
    }
}

/// The items of a file from position `i` on, up to the end of the tokens;
/// `before` are the items before them.
pub open spec fn parse_items(tokens: Seq<TokenView>, i: nat, before: Seq<ItemView>) -> Result<
    Seq<ItemView>,
    ParseError,
>
    decreases left(tokens, i),
{
    if type_at(tokens, i) is EOF {
        Ok(before)
    } else {
        match parse_item(tokens, i) {
            Err(e) => Err(e),
            Ok((item, x)) => parse_items(tokens, i + 1 + x, before.push(item)),
        }
    }
}

} // verus!

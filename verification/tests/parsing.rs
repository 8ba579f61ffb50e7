use nemet::compiler::compile_to_asm;
use nemet::lexer::{Lexer, ParseError, ParseErrorKind, Token, TokenType};
use nemet::parser::block::Block;
use nemet::parser::expr::{
    ArrayIndex, BinaryExpr, CompareExpr, CompareOp, Expr, FunctionCall, Op, UnaryExpr, UnaryOp,
};
use nemet::parser::function::{Function, FunctionArg};
use nemet::parser::program::ProgramItem;
use nemet::parser::stmt::{
    Assgin, AssginOp, ElseBlock, IFStmt, Stmt, VariableDeclare, VariableType, WhileStmt,
};
use nemet::parser::{
    array_indexer, block, expr, factor, function_call_args, function_def, function_def_args,
    if_stmt, import_file, program, statement, term, type_def, variable_declare, while_stmt,
};

use TokenType as T;

fn tok(t_type: TokenType) -> Token {
    Token { t_type, literal: String::new(), line: 1, col: 1 }
}

fn id(name: &str) -> Token {
    Token { t_type: T::Identifier, literal: name.to_string(), line: 1, col: 1 }
}

fn text(s: &str) -> Token {
    Token { t_type: T::String, literal: s.to_string(), line: 1, col: 1 }
}

fn number(v: i32) -> Token {
    tok(T::Int(v))
}

fn lexer(tokens: Vec<Token>) -> Lexer {
    Lexer::new("test.nmt".to_string(), tokens)
}

fn var(name: &str) -> Expr {
    Expr::Variable(name.to_string())
}

fn binary(left: Expr, op: Op, right: Expr) -> Expr {
    Expr::Binary(BinaryExpr { left: Box::new(left), op, right: Box::new(right) })
}

fn compare(left: Expr, op: CompareOp, right: Expr) -> Expr {
    Expr::Compare(CompareExpr { left: Box::new(left), op, right: Box::new(right) })
}

fn failure(kind: ParseErrorKind, found: TokenType, index: usize) -> ParseError {
    ParseError { kind, found, index }
}

#[test]
fn literals_and_names() {
    let mut l = lexer(vec![number(42)]);
    assert_eq!(factor(&mut l), Ok(Expr::Int(42)));
    assert_eq!(l.position(), 1);
    assert_eq!(factor(&mut lexer(vec![tok(T::True)])), Ok(Expr::Int(1)));
    assert_eq!(factor(&mut lexer(vec![tok(T::False)])), Ok(Expr::Int(0)));
    assert_eq!(factor(&mut lexer(vec![tok(T::Char('x'))])), Ok(Expr::Char(120)));
    assert_eq!(factor(&mut lexer(vec![tok(T::Char('\u{141}'))])), Ok(Expr::Char(0x41)));
    assert_eq!(factor(&mut lexer(vec![text("hi")])), Ok(Expr::String("hi".to_string())));
    assert_eq!(factor(&mut lexer(vec![id("x")])), Ok(var("x")));
    let mut l = lexer(vec![id("x"), tok(T::SemiColon)]);
    assert_eq!(factor(&mut l), Ok(var("x")));
    assert_eq!(l.position(), 1);
}

#[test]
fn terms_bind_tighter_than_sums() {
    // 4 * 3 + 6
    let mut l = lexer(vec![number(4), tok(T::Multi), number(3), tok(T::Plus), number(6)]);
    let expected = binary(binary(Expr::Int(4), Op::Multi, Expr::Int(3)), Op::Plus, Expr::Int(6));
    assert_eq!(expr(&mut l), Ok(expected));
    assert_eq!(l.position(), 5);
    // 4 + 3 * 6
    let mut l = lexer(vec![number(4), tok(T::Plus), number(3), tok(T::Multi), number(6)]);
    let expected = binary(Expr::Int(4), Op::Plus, binary(Expr::Int(3), Op::Multi, Expr::Int(6)));
    assert_eq!(expr(&mut l), Ok(expected));
}

#[test]
fn operators_of_one_rank_join_from_the_left() {
    // 1 - 2 - 3
    let mut l = lexer(vec![number(1), tok(T::Minus), number(2), tok(T::Minus), number(3)]);
    let expected = binary(binary(Expr::Int(1), Op::Sub, Expr::Int(2)), Op::Sub, Expr::Int(3));
    assert_eq!(expr(&mut l), Ok(expected));
    // 8 / 2 % 3 << 1 >> 2
    let mut l = lexer(vec![
        number(8),
        tok(T::Devide),
        number(2),
        tok(T::Mod),
        number(3),
        tok(T::Lsh),
        number(1),
        tok(T::Rsh),
        number(2),
    ]);
    let expected = binary(
        binary(
            binary(binary(Expr::Int(8), Op::Devide, Expr::Int(2)), Op::Mod, Expr::Int(3)),
            Op::Lsh,
            Expr::Int(1),
        ),
        Op::Rsh,
        Expr::Int(2),
    );
    assert_eq!(term(&mut l), Ok(expected));
    // a < b + 1 joins from the left too: (a < b) + 1
    let mut l = lexer(vec![id("a"), tok(T::Smaller), id("b"), tok(T::Plus), number(1)]);
    let expected = binary(compare(var("a"), CompareOp::Smaller, var("b")), Op::Plus, Expr::Int(1));
    assert_eq!(expr(&mut l), Ok(expected));
}

#[test]
fn every_operator() {
    for (token, op) in [(T::Plus, Op::Plus), (T::Minus, Op::Sub), (T::And, Op::And), (T::Or, Op::Or)]
    {
        let mut l = lexer(vec![number(1), tok(token), number(2)]);
        assert_eq!(expr(&mut l), Ok(binary(Expr::Int(1), op, Expr::Int(2))));
    }
    for (token, op) in [
        (T::DoubleEq, CompareOp::Eq),
        (T::NotEq, CompareOp::NotEq),
        (T::Bigger, CompareOp::Bigger),
        (T::Smaller, CompareOp::Smaller),
        (T::BiggerEq, CompareOp::BiggerEq),
        (T::SmallerEq, CompareOp::SmallerEq),
    ] {
        let mut l = lexer(vec![number(1), tok(token), number(2)]);
        assert_eq!(expr(&mut l), Ok(compare(Expr::Int(1), op, Expr::Int(2))));
    }
    for (token, op) in [(T::Plus, UnaryOp::Plus), (T::Minus, UnaryOp::Minus), (T::Not, UnaryOp::Not)]
    {
        let mut l = lexer(vec![tok(token), id("x")]);
        assert_eq!(
            factor(&mut l),
            Ok(Expr::Unary(UnaryExpr { op, right: Box::new(var("x")) }))
        );
    }
}

#[test]
fn parentheses_and_unary() {
    // -(4 + 2) * 3
    let mut l = lexer(vec![
        tok(T::Minus),
        tok(T::OParen),
        number(4),
        tok(T::Plus),
        number(2),
        tok(T::CParen),
        tok(T::Multi),
        number(3),
    ]);
    let inner = binary(Expr::Int(4), Op::Plus, Expr::Int(2));
    let expected = binary(
        Expr::Unary(UnaryExpr { op: UnaryOp::Minus, right: Box::new(inner) }),
        Op::Multi,
        Expr::Int(3),
    );
    assert_eq!(expr(&mut l), Ok(expected));
    assert_eq!(l.position(), 8);
    let mut l = lexer(vec![tok(T::OParen), number(4), tok(T::SemiColon)]);
    assert_eq!(expr(&mut l), Err(failure(ParseErrorKind::Expected(T::CParen), T::SemiColon, 2)));
}

#[test]
fn address_of_takes_an_expression() {
    let mut l = lexer(vec![tok(T::Ptr), id("x"), tok(T::Plus), number(1)]);
    let expected = Expr::Ptr(Box::new(binary(var("x"), Op::Plus, Expr::Int(1))));
    assert_eq!(expr(&mut l), Ok(expected));
}

#[test]
fn calls_and_elements() {
    // f(1, x y,) [the comma is optional]
    let mut l = lexer(vec![
        id("f"),
        tok(T::OParen),
        number(1),
        tok(T::Comma),
        id("x"),
        id("y"),
        tok(T::Comma),
        tok(T::CParen),
    ]);
    let expected = Expr::FunctionCall(FunctionCall {
        ident: "f".to_string(),
        args: vec![Expr::Int(1), var("x"), var("y")],
    });
    assert_eq!(expr(&mut l), Ok(expected));
    assert_eq!(l.position(), 8);
    let mut l = lexer(vec![tok(T::OParen), tok(T::CParen), number(1)]);
    assert_eq!(function_call_args(&mut l), Ok(vec![]));
    assert_eq!(l.position(), 2);
    // a[i + 1]
    let mut l = lexer(vec![id("a"), tok(T::OBracket), id("i"), tok(T::Plus), number(1), tok(T::CBracket)]);
    let expected = Expr::ArrayIndex(ArrayIndex {
        ident: "a".to_string(),
        indexer: Box::new(binary(var("i"), Op::Plus, Expr::Int(1))),
    });
    assert_eq!(expr(&mut l), Ok(expected));
    let mut l = lexer(vec![tok(T::OBracket), number(0), tok(T::CBracket)]);
    assert_eq!(array_indexer(&mut l), Ok(Expr::Int(0)));
}

#[test]
fn expression_errors() {
    assert_eq!(expr(&mut lexer(vec![])), Err(failure(ParseErrorKind::Expression, T::EOF, 0)));
    assert_eq!(
        expr(&mut lexer(vec![number(1), tok(T::Plus)])),
        Err(failure(ParseErrorKind::Expression, T::EOF, 2))
    );
    assert_eq!(
        expr(&mut lexer(vec![number(1), tok(T::Multi), tok(T::CParen)])),
        Err(failure(ParseErrorKind::Expression, T::CParen, 2))
    );
    assert_eq!(
        expr(&mut lexer(vec![id("f"), tok(T::OParen), number(1)])),
        Err(failure(ParseErrorKind::Expression, T::EOF, 3))
    );
    assert_eq!(
        array_indexer(&mut lexer(vec![number(1)])),
        Err(failure(ParseErrorKind::Expected(T::OBracket), T::Int(1), 0))
    );
    assert_eq!(
        function_call_args(&mut lexer(vec![number(1)])),
        Err(failure(ParseErrorKind::Expected(T::OParen), T::Int(1), 0))
    );
    assert_eq!(
        expr(&mut lexer(vec![id("a"), tok(T::OBracket), number(1), tok(T::CParen)])),
        Err(failure(ParseErrorKind::Expected(T::CBracket), T::CParen, 3))
    );
}

#[test]
fn types() {
    assert_eq!(type_def(&mut lexer(vec![tok(T::ATSign), id("int")])), Ok(VariableType::Int));
    assert_eq!(type_def(&mut lexer(vec![tok(T::ATSign), id("char")])), Ok(VariableType::Char));
    assert_eq!(type_def(&mut lexer(vec![tok(T::ATSign), id("bool")])), Ok(VariableType::Bool));
    assert_eq!(type_def(&mut lexer(vec![tok(T::ATSign), tok(T::Ptr)])), Ok(VariableType::Pointer));
    let mut l = lexer(vec![
        tok(T::ATSign),
        tok(T::OBracket),
        id("char"),
        tok(T::Comma),
        number(4),
        tok(T::CBracket),
        tok(T::SemiColon),
    ]);
    assert_eq!(type_def(&mut l), Ok(VariableType::Array(Box::new(VariableType::Char), 4)));
    assert_eq!(l.position(), 6);
    // An array of arrays of int.
    let mut l = lexer(vec![
        tok(T::ATSign),
        tok(T::OBracket),
        tok(T::ATSign),
        tok(T::OBracket),
        id("int"),
        tok(T::Comma),
        number(2),
        tok(T::CBracket),
        tok(T::Comma),
        number(3),
        tok(T::CBracket),
    ]);
    let inner = VariableType::Array(Box::new(VariableType::Int), 2);
    assert_eq!(type_def(&mut l), Ok(VariableType::Array(Box::new(inner), 3)));
    // An array of unknown length is a pointer.
    let mut l = lexer(vec![
        tok(T::ATSign),
        tok(T::OBracket),
        id("char"),
        tok(T::Comma),
        tok(T::QMark),
        tok(T::CBracket),
    ]);
    assert_eq!(type_def(&mut l), Ok(VariableType::Pointer));
    assert_eq!(l.position(), 6);
    assert_eq!(
        type_def(&mut lexer(vec![tok(T::ATSign), tok(T::OBracket), id("char"), tok(T::Comma), tok(T::QMark)])),
        Err(failure(ParseErrorKind::Expected(T::CBracket), T::EOF, 5))
    );
}

#[test]
fn type_errors() {
    assert_eq!(
        type_def(&mut lexer(vec![id("int")])),
        Err(failure(ParseErrorKind::Expected(T::ATSign), T::Identifier, 0))
    );
    assert_eq!(
        type_def(&mut lexer(vec![tok(T::ATSign), id("float")])),
        Err(failure(ParseErrorKind::Type, T::Identifier, 1))
    );
    assert_eq!(
        type_def(&mut lexer(vec![tok(T::ATSign), number(1)])),
        Err(failure(ParseErrorKind::Type, T::Int(1), 1))
    );
    assert_eq!(
        type_def(&mut lexer(vec![tok(T::ATSign), tok(T::OBracket)])),
        Err(failure(ParseErrorKind::TypeName, T::EOF, 2))
    );
    assert_eq!(
        type_def(&mut lexer(vec![tok(T::ATSign), tok(T::OBracket), id("int"), tok(T::Comma), id("n")])),
        Err(failure(ParseErrorKind::ArrayLength, T::Identifier, 4))
    );
    assert_eq!(
        type_def(&mut lexer(vec![tok(T::ATSign), tok(T::OBracket), id("int"), tok(T::Comma), number(-1)])),
        Err(failure(ParseErrorKind::ArrayLength, T::Int(-1), 4))
    );
    assert_eq!(
        type_def(&mut lexer(vec![tok(T::ATSign), tok(T::OBracket), id("int"), number(3)])),
        Err(failure(ParseErrorKind::Expected(T::Comma), T::Int(3), 3))
    );
}

#[test]
fn declarations() {
    // var x @ int := 7
    let mut l = lexer(vec![
        tok(T::Var),
        id("x"),
        tok(T::ATSign),
        id("int"),
        tok(T::ColonEq),
        number(7),
        tok(T::SemiColon),
    ]);
    let expected = VariableDeclare {
        mutable: false,
        is_static: false,
        ident: "x".to_string(),
        v_type: Some(VariableType::Int),
        init_value: Some(Expr::Int(7)),
    };
    assert_eq!(variable_declare(&mut l), Ok(expected));
    assert_eq!(l.position(), 6);
    // var y = 1
    let mut l = lexer(vec![tok(T::Var), id("y"), tok(T::Eq), number(1), tok(T::SemiColon)]);
    let expected = VariableDeclare {
        mutable: true,
        is_static: false,
        ident: "y".to_string(),
        v_type: None,
        init_value: Some(Expr::Int(1)),
    };
    assert_eq!(variable_declare(&mut l), Ok(expected));
    // var s :: 2
    let mut l = lexer(vec![tok(T::Var), id("s"), tok(T::DoubleColon), number(2), tok(T::SemiColon)]);
    let expected = VariableDeclare {
        mutable: false,
        is_static: true,
        ident: "s".to_string(),
        v_type: None,
        init_value: Some(Expr::Int(2)),
    };
    assert_eq!(variable_declare(&mut l), Ok(expected));
    assert_eq!(l.position(), 4);
    // var z; the semicolon is left for the block.
    let mut l = lexer(vec![tok(T::Var), id("z"), tok(T::SemiColon)]);
    let expected = VariableDeclare {
        mutable: true,
        is_static: false,
        ident: "z".to_string(),
        v_type: None,
        init_value: None,
    };
    assert_eq!(variable_declare(&mut l), Ok(expected));
    assert_eq!(l.position(), 2);
}

#[test]
fn declaration_errors() {
    assert_eq!(
        variable_declare(&mut lexer(vec![tok(T::Var), number(1)])),
        Err(failure(ParseErrorKind::Expected(T::Identifier), T::Int(1), 1))
    );
    assert_eq!(
        variable_declare(&mut lexer(vec![tok(T::Var), id("x"), tok(T::DoubleColon)])),
        Err(failure(ParseErrorKind::Expression, T::EOF, 3))
    );
    assert_eq!(
        variable_declare(&mut lexer(vec![tok(T::Var), id("x"), number(1)])),
        Err(failure(ParseErrorKind::Assignment, T::Int(1), 2))
    );
    assert_eq!(
        variable_declare(&mut lexer(vec![id("x")])),
        Err(failure(ParseErrorKind::Expected(T::Var), T::Identifier, 0))
    );
}

#[test]
fn statements() {
    let cases: Vec<(Vec<Token>, Stmt)> = vec![
        (vec![tok(T::Print), id("x"), tok(T::SemiColon)], Stmt::Print(var("x"))),
        (vec![tok(T::Return), number(0), tok(T::SemiColon)], Stmt::Return(Expr::Int(0))),
        (vec![tok(T::Break), tok(T::SemiColon)], Stmt::Break),
        (vec![tok(T::Continue), tok(T::SemiColon)], Stmt::Continue),
        (
            vec![id("f"), tok(T::OParen), tok(T::CParen), tok(T::SemiColon)],
            Stmt::Expr(Expr::FunctionCall(FunctionCall { ident: "f".to_string(), args: vec![] })),
        ),
        (
            vec![tok(T::Asm), tok(T::OCurly), text("nop"), text("ret"), tok(T::CCurly)],
            Stmt::InlineAsm(vec!["nop".to_string(), "ret".to_string()]),
        ),
        (vec![tok(T::Asm), tok(T::OCurly), tok(T::CCurly)], Stmt::InlineAsm(vec![])),
    ];
    for (tokens, expected) in cases {
        let n = tokens.len();
        let mut l = lexer(tokens);
        assert_eq!(statement(&mut l), Ok(expected));
        assert_eq!(l.position(), n);
    }
}

#[test]
fn assignments() {
    for (token, op) in [
        (T::Eq, AssginOp::Eq),
        (T::PlusEq, AssginOp::PlusEq),
        (T::SubEq, AssginOp::SubEq),
        (T::MultiEq, AssginOp::MultiEq),
        (T::DivEq, AssginOp::DevideEq),
        (T::ModEq, AssginOp::ModEq),
    ] {
        let mut l = lexer(vec![id("x"), tok(token), number(1), tok(T::SemiColon)]);
        let expected = Stmt::Assgin(Assgin { left: var("x"), right: Expr::Int(1), op });
        assert_eq!(statement(&mut l), Ok(expected));
        assert_eq!(l.position(), 4);
    }
    // s[1] = 'x';
    let mut l = lexer(vec![
        id("s"),
        tok(T::OBracket),
        number(1),
        tok(T::CBracket),
        tok(T::Eq),
        tok(T::Char('x')),
        tok(T::SemiColon),
    ]);
    let expected = Stmt::Assgin(Assgin {
        left: Expr::ArrayIndex(ArrayIndex { ident: "s".to_string(), indexer: Box::new(Expr::Int(1)) }),
        right: Expr::Char(b'x'),
        op: AssginOp::Eq,
    });
    assert_eq!(statement(&mut l), Ok(expected));
}

#[test]
fn statement_errors() {
    assert_eq!(
        statement(&mut lexer(vec![tok(T::Print), number(1)])),
        Err(failure(ParseErrorKind::Expected(T::SemiColon), T::EOF, 2))
    );
    assert_eq!(
        statement(&mut lexer(vec![id("x"), number(1)])),
        Err(failure(ParseErrorKind::Semicolon, T::Int(1), 1))
    );
    assert_eq!(
        statement(&mut lexer(vec![id("x"), tok(T::Eq), number(1), tok(T::CCurly)])),
        Err(failure(ParseErrorKind::Expected(T::SemiColon), T::CCurly, 3))
    );
    assert_eq!(
        statement(&mut lexer(vec![number(1), tok(T::SemiColon)])),
        Err(failure(ParseErrorKind::Statement, T::Int(1), 0))
    );
    assert_eq!(
        statement(&mut lexer(vec![tok(T::Asm), text("nop")])),
        Err(failure(ParseErrorKind::Expected(T::OCurly), T::String, 1))
    );
    assert_eq!(
        statement(&mut lexer(vec![tok(T::Asm), tok(T::OCurly), text("nop"), number(1)])),
        Err(failure(ParseErrorKind::Expected(T::CCurly), T::Int(1), 3))
    );
    assert_eq!(
        block(&mut lexer(vec![tok(T::OCurly), tok(T::Break), tok(T::SemiColon)])),
        Err(failure(ParseErrorKind::Statement, T::EOF, 3))
    );
    assert_eq!(
        block(&mut lexer(vec![tok(T::Break)])),
        Err(failure(ParseErrorKind::Expected(T::OCurly), T::Break, 0))
    );
}

#[test]
fn conditionals() {
    // if x { } else if y { return 1; } else { }
    let mut l = lexer(vec![
        tok(T::If),
        id("x"),
        tok(T::OCurly),
        tok(T::CCurly),
        tok(T::Else),
        tok(T::If),
        id("y"),
        tok(T::OCurly),
        tok(T::Return),
        number(1),
        tok(T::SemiColon),
        tok(T::CCurly),
        tok(T::Else),
        tok(T::OCurly),
        tok(T::CCurly),
        tok(T::SemiColon),
    ]);
    let inner = IFStmt {
        condition: var("y"),
        then_block: Block { stmts: vec![Stmt::Return(Expr::Int(1))] },
        else_block: Box::new(ElseBlock::Else(Block { stmts: vec![] })),
    };
    let expected = IFStmt {
        condition: var("x"),
        then_block: Block { stmts: vec![] },
        else_block: Box::new(ElseBlock::Elif(inner)),
    };
    assert_eq!(if_stmt(&mut l), Ok(expected));
    assert_eq!(l.position(), 15);
    let mut l = lexer(vec![tok(T::If), number(1), tok(T::OCurly), tok(T::CCurly), number(2)]);
    let expected = IFStmt {
        condition: Expr::Int(1),
        then_block: Block { stmts: vec![] },
        else_block: Box::new(ElseBlock::NoElse),
    };
    assert_eq!(if_stmt(&mut l), Ok(expected));
    assert_eq!(l.position(), 4);
    assert_eq!(
        if_stmt(&mut lexer(vec![tok(T::If), number(1), tok(T::OCurly), tok(T::CCurly), tok(T::Else), number(2)])),
        Err(failure(ParseErrorKind::Expected(T::OCurly), T::Int(2), 5))
    );
}

#[test]
fn loops() {
    // while i < 3 { i += 1; }
    let mut l = lexer(vec![
        tok(T::While),
        id("i"),
        tok(T::Smaller),
        number(3),
        tok(T::OCurly),
        id("i"),
        tok(T::PlusEq),
        number(1),
        tok(T::SemiColon),
        tok(T::CCurly),
    ]);
    let expected = WhileStmt {
        condition: compare(var("i"), CompareOp::Smaller, Expr::Int(3)),
        block: Block {
            stmts: vec![Stmt::Assgin(Assgin {
                left: var("i"),
                right: Expr::Int(1),
                op: AssginOp::PlusEq,
            })],
        },
    };
    assert_eq!(while_stmt(&mut l), Ok(expected));
    assert_eq!(l.position(), 10);
    assert_eq!(
        while_stmt(&mut lexer(vec![tok(T::If)])),
        Err(failure(ParseErrorKind::Expected(T::While), T::If, 0))
    );
}

#[test]
fn functions() {
    // func add(a @int, b @int) @int { return a + b; }
    let mut l = lexer(vec![
        tok(T::Func),
        id("add"),
        tok(T::OParen),
        id("a"),
        tok(T::ATSign),
        id("int"),
        tok(T::Comma),
        id("b"),
        tok(T::ATSign),
        id("int"),
        tok(T::CParen),
        tok(T::ATSign),
        id("int"),
        tok(T::OCurly),
        tok(T::Return),
        id("a"),
        tok(T::Plus),
        id("b"),
        tok(T::SemiColon),
        tok(T::CCurly),
    ]);
    let expected = Function {
        ident: "add".to_string(),
        args: vec![
            FunctionArg { ident: "a".to_string(), typedef: VariableType::Int },
            FunctionArg { ident: "b".to_string(), typedef: VariableType::Int },
        ],
        ret_type: Some(VariableType::Int),
        block: Block { stmts: vec![Stmt::Return(binary(var("a"), Op::Plus, var("b")))] },
    };
    assert_eq!(function_def(&mut l), Ok(expected));
    assert_eq!(l.position(), 20);
    let mut l = lexer(vec![tok(T::OParen), tok(T::CParen)]);
    assert_eq!(function_def_args(&mut l), Ok(vec![]));
}

#[test]
fn function_errors() {
    assert_eq!(
        function_def(&mut lexer(vec![tok(T::Func)])),
        Err(failure(ParseErrorKind::FunctionName, T::EOF, 1))
    );
    assert_eq!(
        function_def(&mut lexer(vec![tok(T::Func), number(1)])),
        Err(failure(ParseErrorKind::Expected(T::Identifier), T::Int(1), 1))
    );
    assert_eq!(
        function_def_args(&mut lexer(vec![tok(T::OParen), number(1)])),
        Err(failure(ParseErrorKind::Parameter, T::Int(1), 1))
    );
    assert_eq!(
        function_def_args(&mut lexer(vec![tok(T::OParen), id("a"), tok(T::CParen)])),
        Err(failure(ParseErrorKind::Expected(T::ATSign), T::CParen, 2))
    );
    assert_eq!(
        function_def(&mut lexer(vec![tok(T::Func), id("f"), tok(T::OParen), tok(T::CParen)])),
        Err(failure(ParseErrorKind::Expected(T::OCurly), T::EOF, 4))
    );
}

#[test]
fn imports() {
    let mut l = lexer(vec![tok(T::Import), text("lib/io")]);
    assert_eq!(import_file(&mut l), Ok(ProgramItem::Import("lib/io".to_string(), vec![])));
    let mut l = lexer(vec![
        tok(T::Import),
        text("lib/io"),
        tok(T::DoubleColon),
        id("read"),
        tok(T::Comma),
        id("write"),
        tok(T::Func),
    ]);
    assert_eq!(
        import_file(&mut l),
        Ok(ProgramItem::Import("lib/io".to_string(), vec!["read".to_string(), "write".to_string()]))
    );
    assert_eq!(l.position(), 6);
    assert_eq!(
        import_file(&mut lexer(vec![tok(T::Import), id("io")])),
        Err(failure(ParseErrorKind::Expected(T::String), T::Identifier, 1))
    );
    assert_eq!(
        import_file(&mut lexer(vec![tok(T::Import), text("io"), tok(T::DoubleColon), id("a"), tok(T::Comma)])),
        Err(failure(ParseErrorKind::Expected(T::Identifier), T::EOF, 5))
    );
}

fn main_returning_42() -> Vec<Token> {
    vec![
        tok(T::Func),
        id("main"),
        tok(T::OParen),
        tok(T::CParen),
        tok(T::OCurly),
        tok(T::Return),
        number(42),
        tok(T::SemiColon),
        tok(T::CCurly),
    ]
}

#[test]
fn programs() {
    let mut tokens = vec![tok(T::Import), text("util"), tok(T::DoubleColon), id("helper")];
    tokens.extend(main_returning_42());
    let mut l = lexer(tokens);
    let file = program(&mut l).unwrap();
    assert_eq!(file.file_path, "test.nmt");
    assert_eq!(file.shebang, "");
    assert_eq!(file.items.len(), 2);
    assert_eq!(file.items[0], ProgramItem::Import("util".to_string(), vec!["helper".to_string()]));
    let empty = program(&mut lexer(vec![])).unwrap();
    assert!(empty.items.is_empty());
    assert_eq!(
        program(&mut lexer(vec![tok(T::Return)])),
        Err(failure(ParseErrorKind::TopLevel, T::Return, 0))
    );
    // A variable at the top level is parsed; its semicolon is not an item.
    let mut l = lexer(vec![tok(T::Var), id("x"), tok(T::Eq), number(1)]);
    let file = program(&mut l).unwrap();
    assert!(matches!(file.items[0], ProgramItem::StaticVar(_)));
    assert_eq!(
        program(&mut lexer(vec![tok(T::Var), id("x"), tok(T::SemiColon)])),
        Err(failure(ParseErrorKind::TopLevel, T::SemiColon, 2))
    );
}

#[test]
fn parsed_program_compiles() {
    let mut l = lexer(main_returning_42());
    let file = program(&mut l).unwrap();
    let (code, _) = compile_to_asm("test.nmt".to_string(), &vec![file]).unwrap();
    assert_eq!(code[0], "_start:\n");
    assert_eq!(code[4], "    push 42\n");
    assert_eq!(code[5], "    pop rax\n");
}

#[test]
fn cursor() {
    let mut l = Lexer::new(
        "dir/file.nmt".to_string(),
        vec![
            Token { t_type: T::Identifier, literal: "a".to_string(), line: 3, col: 14 },
            Token { t_type: T::SemiColon, literal: ";".to_string(), line: 3, col: 15 },
        ],
    );
    assert_eq!(l.len(), 2);
    assert_eq!(l.file_path(), "dir/file.nmt");
    assert_eq!(l.get_token_type(), T::Identifier);
    assert_eq!(l.peek_type(1), T::SemiColon);
    assert_eq!(l.peek_type(2), T::EOF);
    assert_eq!(l.get_token().literal, "a");
    assert_eq!(l.literal(), "a");
    assert!(!l.get_token().is_empty());
    assert_eq!(l.get_loc_string(), "dir/file.nmt:3:14");
    assert_eq!(
        l.match_token(T::SemiColon),
        Err(failure(ParseErrorKind::Expected(T::SemiColon), T::Identifier, 0))
    );
    assert_eq!(l.position(), 0);
    assert_eq!(l.match_token(T::Identifier), Ok(()));
    assert_eq!(l.position(), 1);
    assert_eq!(l.error(ParseErrorKind::Statement), failure(ParseErrorKind::Statement, T::SemiColon, 1));
    let next = l.next_token();
    assert!(next.is_empty());
    assert_eq!(l.position(), 2);
    assert!(l.next_token().is_empty());
    assert_eq!(l.position(), 2);
    l.advance();
    assert_eq!(l.position(), 2);
    assert_eq!(l.get_token_type(), T::EOF);
    assert_eq!(l.literal(), "");
    assert_eq!(l.get_loc_string(), "dir/file.nmt:0:0");
    assert_eq!(l.match_token(T::EOF), Ok(()));
    assert!(T::PlusEq.is_assgin_token());
    assert!(!T::DoubleEq.is_assgin_token());
}

use nemet::compiler::Compiler;
use nemet::error::CompileError;
use nemet::parser::block::Block;
use nemet::parser::expr::{
    ArrayIndex, BinaryExpr, CompareExpr, CompareOp, Expr, FunctionCall, Op, UnaryExpr, UnaryOp,
};
use nemet::parser::function::{Function, FunctionArg};
use nemet::parser::stmt::{Stmt, VariableDeclare, VariableType};

fn int_var(ident: &str) -> VariableDeclare {
    VariableDeclare {
        mutable: true,
        is_static: false,
        ident: ident.to_string(),
        v_type: None,
        init_value: None,
    }
}

fn array_var(ident: &str, element: VariableType, length: usize) -> VariableDeclare {
    VariableDeclare {
        mutable: true,
        is_static: false,
        ident: ident.to_string(),
        v_type: Some(VariableType::Array(Box::new(element), length)),
        init_value: None,
    }
}

/// The code of `e` as the initial value of a fresh variable `probe`, which
/// is declared in a function that already has the eight-byte variables
/// `x` and `y`, the array `a` of four `int` and the array `s` of three
/// `char`, and that knows the functions `f` (with a result) and `g`
/// (without). The store that follows the value is cut off.
fn code_of(e: Expr) -> Result<(Vec<String>, Vec<String>), CompileError> {
    let mut c = Compiler::new();
    let f = Function {
        ident: "f".to_string(),
        args: vec![],
        ret_type: Some(VariableType::Int),
        block: Block { stmts: vec![] },
    };
    let g = Function { ident: "g".to_string(), args: vec![], ret_type: None, block: Block { stmts: vec![] } };
    let host = Function {
        ident: "host".to_string(),
        args: vec![],
        ret_type: None,
        block: Block {
            stmts: vec![
                Stmt::VariableDecl(int_var("x")),
                Stmt::VariableDecl(int_var("y")),
                Stmt::VariableDecl(array_var("a", VariableType::Int, 4)),
                Stmt::VariableDecl(array_var("s", VariableType::Char, 3)),
                Stmt::VariableDecl(VariableDeclare {
                    mutable: true,
                    is_static: false,
                    ident: "probe".to_string(),
                    v_type: None,
                    init_value: Some(e),
                }),
            ],
        },
    };
    let sources = vec![nemet::parser::program::ProgramFile {
        shebang: String::new(),
        file_path: "t.nmt".to_string(),
        items: vec![
            nemet::parser::program::ProgramItem::Func(f),
            nemet::parser::program::ProgramItem::Func(g),
            nemet::parser::program::ProgramItem::Func(host),
        ],
    }];
    let (code, data) = c.compile("t.nmt".to_string(), &sources)?;
    // f: label, three free lines, ret; g the same; host: label, prologue.
    let start = 5 + 5 + 4;
    let end = code.len() - 4;
    assert_eq!(code[end], "    pop rax\n");
    assert_eq!(code[end + 1], "    mov qword [rbp-59],rax\n");
    Ok((code[start..end].to_vec(), data))
}

fn lines(e: Expr) -> Vec<String> {
    code_of(e).unwrap().0
}

fn var(ident: &str) -> Expr {
    Expr::Variable(ident.to_string())
}

fn binary(left: Expr, op: Op, right: Expr) -> Expr {
    Expr::Binary(BinaryExpr { left: Box::new(left), op, right: Box::new(right) })
}

#[test]
fn literals_are_pushed() {
    assert_eq!(lines(Expr::Int(42)), vec!["    push 42\n"]);
    assert_eq!(lines(Expr::Int(-7)), vec!["    push -7\n"]);
    assert_eq!(lines(Expr::Char(b'A')), vec!["    push 65\n"]);
    assert_eq!(lines(Expr::Char(255)), vec!["    push 255\n"]);
}

#[test]
fn variable_is_loaded_then_pushed() {
    assert_eq!(lines(var("x")), vec!["    mov rax,qword [rbp-8]\n", "    push rax\n"]);
    assert_eq!(lines(var("y")), vec!["    mov rax,qword [rbp-16]\n", "    push rax\n"]);
}

#[test]
fn binary_operators() {
    let cases: Vec<(Op, Vec<&str>)> = vec![
        (Op::Plus, vec!["    add rax, rbx\n", "    push rax\n"]),
        (Op::Sub, vec!["    sub rax, rbx\n", "    push rax\n"]),
        (Op::Multi, vec!["    imul rax, rbx\n", "    push rax\n"]),
        (Op::Devide, vec!["    cqo\n", "    idiv rbx\n", "    push rax\n"]),
        (Op::Mod, vec!["    cqo\n", "    idiv rbx\n", "    push rdx\n"]),
        (Op::Or, vec!["    or rax, rbx\n", "    push rax\n"]),
        (Op::And, vec!["    and rax, rbx\n", "    push rax\n"]),
        (Op::Lsh, vec!["    mov rcx, rbx\n", "    sal rax, cl\n", "    push rax\n"]),
        (Op::Rsh, vec!["    mov rcx, rbx\n", "    sar rax, cl\n", "    push rax\n"]),
    ];
    for (op, tail) in cases {
        let mut expected =
            vec!["    push 6\n", "    push 3\n", "    pop rbx\n", "    pop rax\n"];
        expected.extend(tail);
        assert_eq!(lines(binary(Expr::Int(6), op, Expr::Int(3))), expected);
    }
}

#[test]
fn operands_are_lowered_left_to_right() {
    let e = binary(binary(Expr::Int(1), Op::Plus, Expr::Int(2)), Op::Multi, var("x"));
    let expected = vec![
        "    push 1\n",
        "    push 2\n",
        "    pop rbx\n",
        "    pop rax\n",
        "    add rax, rbx\n",
        "    push rax\n",
        "    mov rax,qword [rbp-8]\n",
        "    push rax\n",
        "    pop rbx\n",
        "    pop rax\n",
        "    imul rax, rbx\n",
        "    push rax\n",
    ];
    assert_eq!(lines(e), expected);
}

#[test]
fn comparisons() {
    let cases = vec![
        (CompareOp::Eq, "    cmove rcx, rdx\n"),
        (CompareOp::NotEq, "    cmovne rcx, rdx\n"),
        (CompareOp::Bigger, "    cmovg rcx, rdx\n"),
        (CompareOp::Smaller, "    cmovl rcx, rdx\n"),
        (CompareOp::BiggerEq, "    cmovge rcx, rdx\n"),
        (CompareOp::SmallerEq, "    cmovle rcx, rdx\n"),
    ];
    for (op, cmov) in cases {
        let e = Expr::Compare(CompareExpr {
            left: Box::new(var("x")),
            op,
            right: Box::new(Expr::Int(3)),
        });
        let expected = vec![
            "    mov rax,qword [rbp-8]\n",
            "    push rax\n",
            "    push 3\n",
            "    mov rcx, 0\n",
            "    mov rdx, 1\n",
            "    pop rbx\n",
            "    pop rax\n",
            "    cmp rax, rbx\n",
            cmov,
            "    push rcx\n",
        ];
        assert_eq!(lines(e), expected);
    }
}

#[test]
fn unary_operators() {
    let unary = |op| Expr::Unary(UnaryExpr { op, right: Box::new(Expr::Int(5)) });
    assert_eq!(
        lines(unary(UnaryOp::Minus)),
        vec!["    push 5\n", "    pop rax\n", "    neg rax\n", "    push rax\n"]
    );
    assert_eq!(lines(unary(UnaryOp::Plus)), vec!["    push 5\n", "    pop rax\n", "    push rax\n"]);
    assert_eq!(
        lines(unary(UnaryOp::Not)),
        vec!["    push 5\n", "    pop rax\n", "    not rax\n", "    push rax\n"]
    );
}

#[test]
fn string_literal_pushes_address_then_length() {
    let (code, data) = code_of(Expr::String("a\"b".to_string())).unwrap();
    assert_eq!(code, vec!["    push data0\n", "    push len0\n"]);
    assert_eq!(data, vec!["    data0 db \"a\", 34,\"b\"\n", "    len0 equ $ - data0\n"]);
}

#[test]
fn string_ids_count_data_lines() {
    let e = Expr::FunctionCall(FunctionCall {
        ident: "g".to_string(),
        args: vec![Expr::String("one".to_string()), Expr::String("two".to_string())],
    });
    let (code, data) = code_of(e).unwrap();
    assert_eq!(
        data,
        vec![
            "    data0 db \"one\"\n",
            "    len0 equ $ - data0\n",
            "    data2 db \"two\"\n",
            "    len2 equ $ - data2\n",
        ]
    );
    let expected = vec![
        "    push data0\n",
        "    push len0\n",
        "    pop rax\n",
        "    pop rdi\n",
        "    push data2\n",
        "    push len2\n",
        "    pop rax\n",
        "    pop rsi\n",
        "    mov rax, 0\n",
        "    call g\n",
    ];
    assert_eq!(code, expected);
}

#[test]
fn call_moves_arguments_to_registers_in_order() {
    let e = Expr::FunctionCall(FunctionCall {
        ident: "f".to_string(),
        args: (1..=6).map(Expr::Int).collect(),
    });
    let expected = vec![
        "    push 1\n",
        "    pop rdi\n",
        "    push 2\n",
        "    pop rsi\n",
        "    push 3\n",
        "    pop rdx\n",
        "    push 4\n",
        "    pop rcx\n",
        "    push 5\n",
        "    pop r8\n",
        "    push 6\n",
        "    pop r9\n",
        "    mov rax, 0\n",
        "    call f\n",
        "    push rax\n",
    ];
    assert_eq!(lines(e), expected);
}

#[test]
fn call_without_result_pushes_nothing() {
    let e = Expr::FunctionCall(FunctionCall { ident: "g".to_string(), args: vec![] });
    assert_eq!(lines(e), vec!["    mov rax, 0\n", "    call g\n"]);
}

#[test]
fn seventh_argument_is_rejected() {
    let e = Expr::FunctionCall(FunctionCall {
        ident: "f".to_string(),
        args: (1..=7).map(Expr::Int).collect(),
    });
    assert!(matches!(code_of(e), Err(CompileError::TooManyArguments)));
}

#[test]
fn unknown_function_is_rejected() {
    let e = Expr::FunctionCall(FunctionCall { ident: "h".to_string(), args: vec![Expr::Int(1)] });
    match code_of(e) {
        Err(CompileError::UndefinedFunction(name)) => assert_eq!(name, "h"),
        other => panic!("unexpected outcome {:?}", other.map(|_| ())),
    }
}

#[test]
fn address_of_variable() {
    let e = Expr::Ptr(Box::new(var("a")));
    assert_eq!(
        lines(e),
        vec!["    mov rax, rbp\n", "    sub rax, 48\n", "    push rax\n"]
    );
}

#[test]
fn address_of_anything_else_is_rejected() {
    let e = Expr::Ptr(Box::new(Expr::Int(1)));
    assert!(matches!(code_of(e), Err(CompileError::AddressOperand)));
    let e = Expr::Ptr(Box::new(Expr::ArrayIndex(ArrayIndex {
        ident: "a".to_string(),
        indexer: Box::new(Expr::Int(0)),
    })));
    assert!(matches!(code_of(e), Err(CompileError::AddressOperand)));
}

#[test]
fn array_element_load() {
    let e = Expr::ArrayIndex(ArrayIndex { ident: "a".to_string(), indexer: Box::new(var("x")) });
    let expected = vec![
        "    mov rax,qword [rbp-8]\n",
        "    push rax\n",
        "    pop rbx\n",
        "    mov rax,qword [rbp-48+rbx*8]\n",
        "    push rax\n",
    ];
    assert_eq!(lines(e), expected);
    let e = Expr::ArrayIndex(ArrayIndex { ident: "s".to_string(), indexer: Box::new(Expr::Int(2)) });
    let expected = vec![
        "    push 2\n",
        "    pop rbx\n",
        "    mov al,byte [rbp-51+rbx*1]\n",
        "    push rax\n",
    ];
    assert_eq!(lines(e), expected);
}

#[test]
fn undefined_variable_is_rejected() {
    match code_of(binary(var("x"), Op::Plus, var("nope"))) {
        Err(CompileError::UndefinedVariable(name)) => assert_eq!(name, "nope"),
        other => panic!("unexpected outcome {:?}", other.map(|_| ())),
    }
    let e = Expr::ArrayIndex(ArrayIndex { ident: "b".to_string(), indexer: Box::new(Expr::Int(0)) });
    match code_of(e) {
        Err(CompileError::UndefinedVariable(name)) => assert_eq!(name, "b"),
        other => panic!("unexpected outcome {:?}", other.map(|_| ())),
    }
}

#[test]
fn variable_is_not_in_scope_in_its_own_initial_value() {
    match code_of(var("probe")) {
        Err(CompileError::UndefinedVariable(name)) => assert_eq!(name, "probe"),
        other => panic!("unexpected outcome {:?}", other.map(|_| ())),
    }
}

#[test]
fn parameters_are_not_needed_for_a_call() {
    let callee = Function {
        ident: "two".to_string(),
        args: vec![
            FunctionArg { ident: "a".to_string(), typedef: VariableType::Int },
            FunctionArg { ident: "b".to_string(), typedef: VariableType::Char },
        ],
        ret_type: None,
        block: Block { stmts: vec![] },
    };
    let mut c = Compiler::new();
    c.function(&callee).unwrap();
    let (code, _) = c.output();
    let expected = vec![
        "two:\n",
        "    push rbp\n",
        "    mov rbp, rsp\n",
        "    sub rsp, 32\n",
        "    mov qword [rbp-8],rdi\n",
        "    mov qword [rbp-16],rsi\n",
        "    leave\n",
        "    ret\n",
    ];
    assert_eq!(code, expected);
}

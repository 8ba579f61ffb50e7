use nemet::compiler::Compiler;
use nemet::parser::block::Block;
use nemet::parser::expr::{ArrayIndex, CompareExpr, CompareOp, Expr};
use nemet::parser::function::Function;
use nemet::parser::stmt::{
    Assgin, AssginOp, ElseBlock, IFStmt, Stmt, VariableDeclare, VariableType, WhileStmt,
};

fn main_of(stmts: Vec<Stmt>) -> Function {
    Function { ident: "main".to_string(), args: vec![], ret_type: None, block: Block { stmts } }
}

fn declare(ident: &str, v_type: Option<VariableType>, mutable: bool, init: Option<Expr>) -> Stmt {
    Stmt::VariableDecl(VariableDeclare {
        mutable,
        is_static: false,
        ident: ident.to_string(),
        v_type,
        init_value: init,
    })
}

fn var(ident: &str) -> Expr {
    Expr::Variable(ident.to_string())
}

fn lower(f: &Function) -> (Vec<String>, Vec<String>) {
    let mut c = Compiler::new();
    c.function(f).unwrap();
    c.output()
}

fn position(lines: &[String], from: usize, text: &str) -> usize {
    match lines.iter().skip(from).position(|l| l == text) {
        Some(i) => from + i,
        None => panic!("line {:?} is missing behind {}", text, from),
    }
}

#[test]
fn integer_literal_return() {
    let (code, data) = lower(&main_of(vec![Stmt::Return(Expr::Int(42))]));
    let expected = vec![
        "_start:\n",
        "",
        "",
        "",
        "    push 42\n",
        "    pop rax\n",
        "    leave\n",
        "    ret\n",
        "    mov rax, 60\n",
        "    mov rdi, 0\n",
        "    syscall\n",
    ];
    assert_eq!(code, expected);
    assert!(data.is_empty());
}

#[test]
fn variable_with_initializer() {
    let (code, _) = lower(&main_of(vec![
        declare("x", Some(VariableType::Int), false, Some(Expr::Int(7))),
        Stmt::Return(var("x")),
    ]));
    let expected = vec![
        "_start:\n",
        "    push rbp\n",
        "    mov rbp, rsp\n",
        "    sub rsp, 16\n",
        "    push 7\n",
        "    pop rax\n",
        "    mov qword [rbp-8],rax\n",
        "    mov rax,qword [rbp-8]\n",
        "    push rax\n",
        "    pop rax\n",
        "    leave\n",
        "    ret\n",
        "    mov rax, 60\n",
        "    mov rdi, 0\n",
        "    syscall\n",
    ];
    assert_eq!(code, expected);
}

#[test]
fn if_else_labels() {
    let ifs = IFStmt {
        condition: var("x"),
        then_block: Block { stmts: vec![Stmt::Return(Expr::Int(1))] },
        else_block: Box::new(ElseBlock::Else(Block { stmts: vec![Stmt::Return(Expr::Int(0))] })),
    };
    let (code, _) = lower(&main_of(vec![
        declare("x", None, false, Some(Expr::Int(1))),
        Stmt::If(ifs),
    ]));
    // The `if` starts at line 7: its exit label is 7, and the label of the
    // alternative is 9, the length of the buffer behind the condition.
    let expected = vec![
        "_start:\n",
        "    push rbp\n",
        "    mov rbp, rsp\n",
        "    sub rsp, 16\n",
        "    push 1\n",
        "    pop rax\n",
        "    mov qword [rbp-8],rax\n",
        "    mov rax,qword [rbp-8]\n",
        "    push rax\n",
        "    pop rax\n",
        "    test rax, rax\n",
        "    jz .L9\n",
        "    push 1\n",
        "    pop rax\n",
        "    leave\n",
        "    ret\n",
        "    jmp .L7\n",
        "    .L9:\n",
        "    push 0\n",
        "    pop rax\n",
        "    leave\n",
        "    ret\n",
        "    .L7:\n",
        "    mov rax, 60\n",
        "    mov rdi, 0\n",
        "    syscall\n",
    ];
    assert_eq!(code, expected);
    for label in ["    .L7:\n", "    .L9:\n", "    jz .L9\n", "    jmp .L7\n"] {
        assert_eq!(code.iter().filter(|l| *l == label).count(), 1);
    }
}

#[test]
fn while_loop_labels() {
    let w = WhileStmt {
        condition: Expr::Compare(CompareExpr {
            left: Box::new(var("i")),
            op: CompareOp::Smaller,
            right: Box::new(Expr::Int(3)),
        }),
        block: Block {
            stmts: vec![Stmt::Assgin(Assgin {
                left: var("i"),
                right: Expr::Int(1),
                op: AssginOp::PlusEq,
            })],
        },
    };
    let (code, _) = lower(&main_of(vec![
        declare("i", None, true, Some(Expr::Int(0))),
        Stmt::While(w),
        Stmt::Return(var("i")),
    ]));
    let jump = position(&code, 0, "    jmp .L7\n");
    assert_eq!(jump, 7);
    let body = position(&code, jump, "    .L8:\n");
    assert_eq!(body, 8);
    let add = position(&code, body, "    add qword [rbp-8],rax\n");
    let cond = position(&code, add, "    .L7:\n");
    let compare = position(&code, cond, "    cmp rax, rbx\n");
    let less = position(&code, compare, "    cmovl rcx, rdx\n");
    let back = position(&code, less, "    jnz .L8\n");
    assert_eq!(code[back - 1], "    test rax, rax\n");
    assert_eq!(code[back - 2], "    pop rax\n");
}

#[test]
fn array_of_char_element_store() {
    let (code, _) = lower(&main_of(vec![
        declare("s", Some(VariableType::Array(Box::new(VariableType::Char), 4)), true, None),
        Stmt::Assgin(Assgin {
            left: Expr::ArrayIndex(ArrayIndex {
                ident: "s".to_string(),
                indexer: Box::new(Expr::Int(1)),
            }),
            right: Expr::Char(b'x'),
            op: AssginOp::Eq,
        }),
    ]));
    let expected = vec![
        "_start:\n",
        "    push rbp\n",
        "    mov rbp, rsp\n",
        "    sub rsp, 8\n",
        "    push 120\n",
        "    push 1\n",
        "    pop rbx\n",
        "    pop rax\n",
        "    mov byte [rbp-4+rbx*1],al\n",
        "    mov rax, 60\n",
        "    mov rdi, 0\n",
        "    syscall\n",
    ];
    assert_eq!(code, expected);
}

#[test]
fn print_string() {
    let (code, data) = lower(&main_of(vec![Stmt::Print(Expr::String("hi\n".to_string()))]));
    assert_eq!(data, vec!["    data0 db \"hi\", 10\n", "    len0 equ $ - data0\n"]);
    let expected = vec![
        "_start:\n",
        "",
        "",
        "",
        "    push data0\n",
        "    push len0\n",
        "    mov rax, 1\n",
        "    mov rdi, 1\n",
        "    pop rbx\n",
        "    pop rcx\n",
        "    mov rsi, rcx\n",
        "    mov rdx, rbx\n",
        "    syscall\n",
        "    mov rax, 60\n",
        "    mov rdi, 0\n",
        "    syscall\n",
    ];
    assert_eq!(code, expected);
}

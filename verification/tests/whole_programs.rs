use nemet::compiler::compile_to_asm;
use nemet::parser::block::Block;
use nemet::parser::expr::{
    ArrayIndex, BinaryExpr, CompareExpr, CompareOp, Expr, FunctionCall, Op, UnaryExpr, UnaryOp,
};
use nemet::parser::function::{Function, FunctionArg};
use nemet::parser::program::{ProgramFile, ProgramItem};
use nemet::parser::stmt::{
    Assgin, AssginOp, ElseBlock, IFStmt, Stmt, VariableDeclare, VariableType, WhileStmt,
};

fn var(ident: &str) -> Expr {
    Expr::Variable(ident.to_string())
}

fn call(ident: &str, args: Vec<Expr>) -> Expr {
    Expr::FunctionCall(FunctionCall { ident: ident.to_string(), args })
}

fn less(left: Expr, right: Expr) -> Expr {
    Expr::Compare(CompareExpr { left: Box::new(left), op: CompareOp::Smaller, right: Box::new(right) })
}

fn plus(left: Expr, right: Expr) -> Expr {
    Expr::Binary(BinaryExpr { left: Box::new(left), op: Op::Plus, right: Box::new(right) })
}

fn declare(ident: &str, v_type: Option<VariableType>, init: Option<Expr>) -> Stmt {
    Stmt::VariableDecl(VariableDeclare {
        mutable: true,
        is_static: false,
        ident: ident.to_string(),
        v_type,
        init_value: init,
    })
}

fn assign(left: Expr, op: AssginOp, right: Expr) -> Stmt {
    Stmt::Assgin(Assgin { left, right, op })
}

fn when(condition: Expr, then: Vec<Stmt>, otherwise: ElseBlock) -> IFStmt {
    IFStmt { condition, then_block: Block { stmts: then }, else_block: Box::new(otherwise) }
}

/// A program that uses every statement and every kind of expression, with
/// loops and conditionals nested in one another.
fn program() -> Vec<ProgramFile> {
    let fib = Function {
        ident: "fib".to_string(),
        args: vec![FunctionArg { ident: "n".to_string(), typedef: VariableType::Int }],
        ret_type: Some(VariableType::Int),
        block: Block {
            stmts: vec![
                Stmt::If(when(
                    less(var("n"), Expr::Int(2)),
                    vec![Stmt::Return(var("n"))],
                    ElseBlock::NoElse,
                )),
                Stmt::Return(plus(
                    call(
                        "fib",
                        vec![Expr::Binary(BinaryExpr {
                            left: Box::new(var("n")),
                            op: Op::Sub,
                            right: Box::new(Expr::Int(1)),
                        })],
                    ),
                    call(
                        "fib",
                        vec![Expr::Binary(BinaryExpr {
                            left: Box::new(var("n")),
                            op: Op::Sub,
                            right: Box::new(Expr::Int(2)),
                        })],
                    ),
                )),
            ],
        },
    };
    let show = Function {
        ident: "show".to_string(),
        args: vec![
            FunctionArg { ident: "text".to_string(), typedef: VariableType::Pointer },
            FunctionArg { ident: "n".to_string(), typedef: VariableType::Int },
        ],
        ret_type: None,
        block: Block { stmts: vec![Stmt::Print(var("n"))] },
    };
    let inner_loop = WhileStmt {
        condition: less(var("j"), var("i")),
        block: Block {
            stmts: vec![
                Stmt::If(when(
                    less(var("j"), Expr::Int(1)),
                    vec![Stmt::Print(Expr::String("low\n".to_string()))],
                    ElseBlock::Elif(when(
                        less(var("j"), Expr::Int(2)),
                        vec![Stmt::Expr(call("show", vec![Expr::String("mid".to_string()), var("j")]))],
                        ElseBlock::Else(Block {
                            stmts: vec![assign(
                                Expr::ArrayIndex(ArrayIndex {
                                    ident: "cells".to_string(),
                                    indexer: Box::new(var("j")),
                                }),
                                AssginOp::Eq,
                                call("fib", vec![var("j")]),
                            )],
                        }),
                    )),
                )),
                assign(var("j"), AssginOp::PlusEq, Expr::Int(1)),
            ],
        },
    };
    let outer_loop = WhileStmt {
        condition: less(var("i"), Expr::Int(4)),
        block: Block {
            stmts: vec![
                declare("j", None, Some(Expr::Int(0))),
                Stmt::While(inner_loop),
                assign(var("i"), AssginOp::PlusEq, Expr::Int(1)),
            ],
        },
    };
    let main = Function {
        ident: "main".to_string(),
        args: vec![],
        ret_type: None,
        block: Block {
            stmts: vec![
                declare("cells", Some(VariableType::Array(Box::new(VariableType::Int), 4)), None),
                declare("i", Some(VariableType::Int), Some(Expr::Int(0))),
                declare("c", Some(VariableType::Char), Some(Expr::Char(b'c'))),
                Stmt::While(outer_loop),
                Stmt::If(when(
                    Expr::Unary(UnaryExpr { op: UnaryOp::Not, right: Box::new(var("i")) }),
                    vec![Stmt::Print(Expr::Ptr(Box::new(var("cells"))))],
                    ElseBlock::Else(Block {
                        stmts: vec![Stmt::Print(Expr::ArrayIndex(ArrayIndex {
                            ident: "cells".to_string(),
                            indexer: Box::new(Expr::Int(3)),
                        }))],
                    }),
                )),
                Stmt::InlineAsm(vec!["mov rax, %i".to_string()]),
                Stmt::Return(Expr::Int(0)),
            ],
        },
    };
    vec![ProgramFile {
        shebang: String::new(),
        file_path: "all.nmt".to_string(),
        items: vec![ProgramItem::Func(fib), ProgramItem::Func(show), ProgramItem::Func(main)],
    }]
}

/// The lines of each function, entry label first.
fn functions_of(code: &[String]) -> Vec<Vec<String>> {
    let mut functions: Vec<Vec<String>> = Vec::new();
    for line in code {
        if !line.is_empty() && !line.starts_with(' ') {
            functions.push(Vec::new());
        }
        functions.last_mut().unwrap().push(line.clone());
    }
    functions
}

fn label_defined(line: &str) -> Option<usize> {
    line.strip_prefix("    .L")?.strip_suffix(":\n")?.parse().ok()
}

fn label_used(line: &str) -> Option<usize> {
    for jump in ["    jmp .L", "    jz .L", "    jnz .L"] {
        if let Some(rest) = line.strip_prefix(jump) {
            return rest.strip_suffix('\n')?.parse().ok();
        }
    }
    None
}

#[test]
fn every_jump_goes_to_a_label_defined_once_in_its_function() {
    let (code, _) = compile_to_asm("all.nmt".to_string(), &program()).unwrap();
    let mut jumps = 0;
    for function in functions_of(&code) {
        let defined: Vec<usize> = function.iter().filter_map(|l| label_defined(l)).collect();
        for line in &function {
            if let Some(n) = label_used(line) {
                jumps += 1;
                assert_eq!(defined.iter().filter(|d| **d == n).count(), 1, "label {}", n);
            }
        }
        for n in &defined {
            assert_eq!(defined.iter().filter(|d| *d == n).count(), 1, "label {}", n);
        }
    }
    assert_eq!(jumps, 11);
}

#[test]
fn labels_are_numbered_by_positions_within_their_function() {
    let (code, _) = compile_to_asm("all.nmt".to_string(), &program()).unwrap();
    let mut start = 0;
    for function in functions_of(&code) {
        for line in &function {
            for n in label_defined(line).into_iter().chain(label_used(line)) {
                assert!(start <= n && n < start + function.len());
            }
        }
        start += function.len();
    }
}

#[test]
fn pushes_and_pops_balance_in_every_function() {
    let (code, _) = compile_to_asm("all.nmt".to_string(), &program()).unwrap();
    for function in functions_of(&code) {
        let body = &function[4..];
        let pushes = body.iter().filter(|l| l.starts_with("    push ")).count();
        let pops = body.iter().filter(|l| l.starts_with("    pop ")).count();
        assert_eq!(pushes, pops, "{}", function[0]);
        assert!(pushes > 0);
    }
}

#[test]
fn every_slot_lies_within_the_frame() {
    let (code, _) = compile_to_asm("all.nmt".to_string(), &program()).unwrap();
    let mut operands = 0;
    for function in functions_of(&code) {
        assert_eq!(function[1], "    push rbp\n");
        assert_eq!(function[2], "    mov rbp, rsp\n");
        let frame: usize = function[3]
            .strip_prefix("    sub rsp, ")
            .and_then(|k| k.trim_end().parse().ok())
            .expect("the prologue");
        assert!(frame.is_power_of_two());
        for line in &function {
            let mut rest = line.as_str();
            while let Some(at) = rest.find("[rbp-") {
                rest = &rest[at + 5..];
                let digits: String = rest.chars().take_while(|c| c.is_ascii_digit()).collect();
                let below: usize = digits.parse().unwrap();
                assert!(below <= frame);
                operands += 1;
            }
        }
    }
    assert!(operands > 20);
}

#[test]
fn frame_of_main_holds_all_its_slots() {
    let (code, _) = compile_to_asm("all.nmt".to_string(), &program()).unwrap();
    let at = code.iter().position(|l| l == "_start:\n").unwrap();
    // cells 32, i 8, c 1, j 8: 49 bytes.
    assert_eq!(code[at + 3], "    sub rsp, 64\n");
    assert!(code.contains(&"    mov rax, qword [rbp-40]\n".to_string()));
    assert!(code.contains(&"    mov byte [rbp-41],al\n".to_string()));
    assert!(code.contains(&"    mov rax,qword [rbp-49]\n".to_string()));
}

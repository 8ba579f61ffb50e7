use nemet::compiler::{compile_to_asm, Compiler};
use nemet::error::CompileError;
use nemet::parser::block::Block;
use nemet::parser::expr::{Expr, FunctionCall};
use nemet::parser::function::{Function, FunctionArg};
use nemet::parser::program::{ProgramFile, ProgramItem};
use nemet::parser::stmt::{Stmt, VariableDeclare, VariableType};

fn function(ident: &str, params: &[&str], returns: bool, stmts: Vec<Stmt>) -> Function {
    Function {
        ident: ident.to_string(),
        args: params
            .iter()
            .map(|p| FunctionArg { ident: p.to_string(), typedef: VariableType::Int })
            .collect(),
        ret_type: if returns { Some(VariableType::Int) } else { None },
        block: Block { stmts },
    }
}

fn chars(ident: &str, length: usize) -> Stmt {
    Stmt::VariableDecl(VariableDeclare {
        mutable: true,
        is_static: false,
        ident: ident.to_string(),
        v_type: Some(VariableType::Array(Box::new(VariableType::Char), length)),
        init_value: None,
    })
}

fn file(path: &str, items: Vec<ProgramItem>) -> ProgramFile {
    ProgramFile { shebang: String::new(), file_path: path.to_string(), items }
}

fn import(path: &str, names: &[&str]) -> ProgramItem {
    ProgramItem::Import(path.to_string(), names.iter().map(|n| n.to_string()).collect())
}

fn labels_of(code: &[String]) -> Vec<&String> {
    code.iter().filter(|l| !l.starts_with(' ') && !l.is_empty()).collect()
}

#[test]
fn function_without_locals_has_no_prologue_and_no_leave() {
    let mut c = Compiler::new();
    c.function(&function("idle", &[], false, vec![])).unwrap();
    let (code, _) = c.output();
    assert_eq!(code, vec!["idle:\n", "", "", "", "    ret\n"]);
}

#[test]
fn function_with_a_local_has_prologue_and_leave() {
    let mut c = Compiler::new();
    c.function(&function("busy", &[], false, vec![chars("s", 1)])).unwrap();
    let (code, _) = c.output();
    let expected = vec![
        "busy:\n",
        "    push rbp\n",
        "    mov rbp, rsp\n",
        "    sub rsp, 2\n",
        "    leave\n",
        "    ret\n",
    ];
    assert_eq!(code, expected);
}

#[test]
fn main_is_the_entry_point_and_exits() {
    let mut c = Compiler::new();
    c.function(&function("main", &[], false, vec![])).unwrap();
    let (code, _) = c.output();
    let expected =
        vec!["_start:\n", "", "", "", "    mov rax, 60\n", "    mov rdi, 0\n", "    syscall\n"];
    assert_eq!(code, expected);
}

#[test]
fn main_with_locals_exits_without_leave() {
    let mut c = Compiler::new();
    c.function(&function("main", &[], false, vec![chars("s", 8)])).unwrap();
    let (code, _) = c.output();
    let expected = vec![
        "_start:\n",
        "    push rbp\n",
        "    mov rbp, rsp\n",
        "    sub rsp, 16\n",
        "    mov rax, 60\n",
        "    mov rdi, 0\n",
        "    syscall\n",
    ];
    assert_eq!(code, expected);
}

#[test]
fn frame_size_is_the_next_power_of_two() {
    for (bytes, frame) in [
        (1usize, 2usize),
        (2, 4),
        (3, 4),
        (4, 8),
        (7, 8),
        (8, 16),
        (15, 16),
        (16, 32),
        (100, 128),
        (1023, 1024),
        (1024, 2048),
        (usize::MAX / 2, usize::MAX / 2 + 1),
    ] {
        let mut c = Compiler::new();
        c.function(&function("f", &[], false, vec![chars("s", bytes)])).unwrap();
        let (code, _) = c.output();
        assert_eq!(code[3], format!("    sub rsp, {}\n", frame));
        assert!(frame.is_power_of_two() && frame > bytes && frame <= 2 * bytes);
    }
}

#[test]
fn six_parameters_are_spilled_in_order() {
    let mut c = Compiler::new();
    c.function(&function("six", &["a", "b", "c", "d", "e", "f"], false, vec![])).unwrap();
    let (code, _) = c.output();
    let expected = vec![
        "six:\n",
        "    push rbp\n",
        "    mov rbp, rsp\n",
        "    sub rsp, 64\n",
        "    mov qword [rbp-8],rdi\n",
        "    mov qword [rbp-16],rsi\n",
        "    mov qword [rbp-24],rdx\n",
        "    mov qword [rbp-32],rcx\n",
        "    mov qword [rbp-40],r8\n",
        "    mov qword [rbp-48],r9\n",
        "    leave\n",
        "    ret\n",
    ];
    assert_eq!(code, expected);
}

#[test]
fn seventh_parameter_is_rejected() {
    let mut c = Compiler::new();
    let r = c.function(&function("seven", &["a", "b", "c", "d", "e", "f", "g"], false, vec![]));
    assert!(matches!(r, Err(CompileError::TooManyArguments)));
}

#[test]
fn parameters_are_immutable_slots_of_the_function_scope() {
    let f = function(
        "id",
        &["n"],
        true,
        vec![Stmt::Return(Expr::Variable("n".to_string()))],
    );
    let mut c = Compiler::new();
    c.function(&f).unwrap();
    let (code, _) = c.output();
    assert_eq!(code[4], "    mov qword [rbp-8],rdi\n");
    assert_eq!(code[5], "    mov rax,qword [rbp-8]\n");
    let assign = function(
        "set",
        &["n"],
        false,
        vec![Stmt::Assgin(nemet::parser::stmt::Assgin {
            left: Expr::Variable("n".to_string()),
            right: Expr::Int(1),
            op: nemet::parser::stmt::AssginOp::Eq,
        })],
    );
    match Compiler::new().function(&assign) {
        Err(CompileError::ImmutableVariable(name)) => assert_eq!(name, "n"),
        other => panic!("unexpected outcome {:?}", other),
    }
}

#[test]
fn each_function_starts_with_fresh_tables() {
    let mut c = Compiler::new();
    c.function(&function("first", &["a"], false, vec![chars("s", 100)])).unwrap();
    let second = function("second", &[], false, vec![Stmt::Print(Expr::Variable("a".to_string()))]);
    match c.function(&second) {
        Err(CompileError::UndefinedVariable(name)) => assert_eq!(name, "a"),
        other => panic!("unexpected outcome {:?}", other),
    }
    let mut c = Compiler::new();
    c.function(&function("first", &["a"], false, vec![chars("s", 100)])).unwrap();
    c.function(&function("third", &["b"], false, vec![])).unwrap();
    let (code, _) = c.output();
    let at = code.iter().position(|l| l == "third:\n").unwrap();
    assert_eq!(code[at + 3], "    sub rsp, 16\n");
    assert_eq!(code[at + 4], "    mov qword [rbp-8],rdi\n");
}

#[test]
fn no_variable_is_in_scope_outside_a_function() {
    let mut c = Compiler::new();
    assert!(c.find_variable("x".to_string()).is_none());
    c.insert_variable(&VariableDeclare {
        mutable: true,
        is_static: false,
        ident: "x".to_string(),
        v_type: None,
        init_value: None,
    })
    .unwrap();
    assert!(c.find_variable("x".to_string()).is_none());
    c.function(&function("f", &["x"], false, vec![])).unwrap();
    assert!(c.find_variable("x".to_string()).is_none());
}

#[test]
fn program_functions_in_order() {
    let sources = vec![file(
        "prog.nmt",
        vec![
            ProgramItem::Func(function("one", &[], true, vec![Stmt::Return(Expr::Int(1))])),
            ProgramItem::Func(function(
                "main",
                &[],
                false,
                vec![Stmt::Print(Expr::FunctionCall(FunctionCall {
                    ident: "one".to_string(),
                    args: vec![],
                }))],
            )),
        ],
    )];
    let (code, data) = compile_to_asm("prog.nmt".to_string(), &sources).unwrap();
    assert!(data.is_empty());
    let expected = vec![
        "one:\n",
        "",
        "",
        "",
        "    push 1\n",
        "    pop rax\n",
        "    leave\n",
        "    ret\n",
        "    ret\n",
        "_start:\n",
        "",
        "",
        "",
        "    mov rax, 0\n",
        "    call one\n",
        "    push rax\n",
        "    pop rdi\n",
        "    call print\n",
        "    mov rax, 60\n",
        "    mov rdi, 0\n",
        "    syscall\n",
    ];
    assert_eq!(code, expected);
}

#[test]
fn function_can_call_itself_but_not_a_later_one() {
    let call = |name: &str| {
        Stmt::Expr(Expr::FunctionCall(FunctionCall { ident: name.to_string(), args: vec![] }))
    };
    let sources = vec![file(
        "r.nmt",
        vec![ProgramItem::Func(function("again", &[], false, vec![call("again")]))],
    )];
    assert!(compile_to_asm("r.nmt".to_string(), &sources).is_ok());
    let sources = vec![file(
        "r.nmt",
        vec![
            ProgramItem::Func(function("early", &[], false, vec![call("late")])),
            ProgramItem::Func(function("late", &[], false, vec![])),
        ],
    )];
    match compile_to_asm("r.nmt".to_string(), &sources) {
        Err(CompileError::UndefinedFunction(name)) => assert_eq!(name, "late"),
        other => panic!("unexpected outcome {:?}", other.map(|_| ())),
    }
}

#[test]
fn later_definition_replaces_the_signature() {
    let call = Stmt::Expr(Expr::FunctionCall(FunctionCall { ident: "f".to_string(), args: vec![] }));
    let sources = vec![file(
        "o.nmt",
        vec![
            ProgramItem::Func(function("f", &[], true, vec![])),
            ProgramItem::Func(function("f", &[], false, vec![])),
            ProgramItem::Func(function("main", &[], false, vec![call])),
        ],
    )];
    let (code, _) = compile_to_asm("o.nmt".to_string(), &sources).unwrap();
    let at = code.iter().position(|l| l == "    call f\n").unwrap();
    assert_eq!(code[at + 1], "    mov rax, 60\n");
}

#[test]
fn top_level_variable_is_rejected() {
    let sources = vec![file(
        "s.nmt",
        vec![ProgramItem::StaticVar(VariableDeclare {
            mutable: false,
            is_static: true,
            ident: "x".to_string(),
            v_type: None,
            init_value: None,
        })],
    )];
    assert!(matches!(
        compile_to_asm("s.nmt".to_string(), &sources),
        Err(CompileError::StaticVariable)
    ));
}

#[test]
fn import_compiles_the_named_functions_only() {
    let sources = vec![
        file(
            "main.nmt",
            vec![
                import("lib/util", &["used"]),
                ProgramItem::Func(function("main", &[], false, vec![])),
            ],
        ),
        file(
            "lib/util.nmt",
            vec![
                ProgramItem::Func(function("unused", &[], false, vec![])),
                ProgramItem::Func(function("used", &[], false, vec![])),
            ],
        ),
    ];
    let (code, _) = compile_to_asm("main.nmt".to_string(), &sources).unwrap();
    assert_eq!(labels_of(&code), vec!["used:\n", "_start:\n"]);
}

#[test]
fn import_without_names_follows_the_chain_only() {
    let sources = vec![
        file("main.nmt", vec![import("a", &[])]),
        file(
            "a.nmt",
            vec![ProgramItem::Func(function("in_a", &[], false, vec![])), import("b", &["in_b"])],
        ),
        file("b.nmt", vec![ProgramItem::Func(function("in_b", &[], false, vec![]))]),
    ];
    let (code, _) = compile_to_asm("main.nmt".to_string(), &sources).unwrap();
    assert_eq!(labels_of(&code), vec!["in_b:\n"]);
}

#[test]
fn file_imported_twice_is_compiled_twice() {
    let sources = vec![
        file("main.nmt", vec![import("a", &["f"]), import("a", &["f"])]),
        file("a.nmt", vec![ProgramItem::Func(function("f", &[], false, vec![]))]),
    ];
    let (code, _) = compile_to_asm("main.nmt".to_string(), &sources).unwrap();
    assert_eq!(labels_of(&code), vec!["f:\n", "f:\n"]);
}

#[test]
fn first_source_of_a_path_is_taken() {
    let sources = vec![
        file("main.nmt", vec![ProgramItem::Func(function("first", &[], false, vec![]))]),
        file("main.nmt", vec![ProgramItem::Func(function("second", &[], false, vec![]))]),
    ];
    let (code, _) = compile_to_asm("main.nmt".to_string(), &sources).unwrap();
    assert_eq!(labels_of(&code), vec!["first:\n"]);
}

#[test]
fn missing_source_is_rejected() {
    match compile_to_asm("main.nmt".to_string(), &vec![]) {
        Err(CompileError::UnknownSource(path)) => assert_eq!(path, "main.nmt"),
        other => panic!("unexpected outcome {:?}", other.map(|_| ())),
    }
    let sources = vec![file("main.nmt", vec![import("gone", &["f"])])];
    match compile_to_asm("main.nmt".to_string(), &sources) {
        Err(CompileError::UnknownSource(path)) => assert_eq!(path, "gone.nmt"),
        other => panic!("unexpected outcome {:?}", other.map(|_| ())),
    }
}

#[test]
fn import_cycle_is_rejected() {
    let sources = vec![
        file("main.nmt", vec![import("a", &[])]),
        file("a.nmt", vec![import("b", &[])]),
        file("b.nmt", vec![import("a", &[])]),
    ];
    assert!(matches!(
        compile_to_asm("main.nmt".to_string(), &sources),
        Err(CompileError::ImportDepth)
    ));
}

#[test]
fn longest_chain_without_a_cycle_is_accepted() {
    let sources = vec![
        file("main.nmt", vec![import("a", &[])]),
        file("a.nmt", vec![import("b", &[])]),
        file("b.nmt", vec![import("c", &[])]),
        file("c.nmt", vec![]),
    ];
    assert!(compile_to_asm("main.nmt".to_string(), &sources).is_ok());
}

#[test]
fn compile_lib_with_a_depth() {
    let sources = vec![
        file(
            "a.nmt",
            vec![ProgramItem::Func(function("f", &[], false, vec![])), import("b", &["g"])],
        ),
        file("b.nmt", vec![ProgramItem::Func(function("g", &[], false, vec![]))]),
    ];
    let mut c = Compiler::new();
    let r = c.compile_lib("a.nmt".to_string(), vec!["f".to_string()], &sources, 0);
    assert!(matches!(r, Err(CompileError::ImportDepth)));
    let mut c = Compiler::new();
    let (code, data) =
        c.compile_lib("a.nmt".to_string(), vec!["f".to_string()], &sources, 1).unwrap();
    assert_eq!(labels_of(&code), vec!["f:\n", "g:\n"]);
    assert!(data.is_empty());
    assert_eq!(c.output().0, code);
}

#[test]
fn buffers_accumulate_across_compilations() {
    let sources = vec![file("a.nmt", vec![ProgramItem::Func(function("f", &[], false, vec![]))])];
    let mut c = Compiler::new();
    c.compile("a.nmt".to_string(), &sources).unwrap();
    let (code, _) = c.compile("a.nmt".to_string(), &sources).unwrap();
    assert_eq!(labels_of(&code), vec!["f:\n", "f:\n"]);
}

#[test]
fn error_messages() {
    let cases = vec![
        (
            CompileError::UndefinedVariable("x".to_string()),
            "Error: Trying to access an undefined variable (x)",
        ),
        (
            CompileError::UndefinedFunction("f".to_string()),
            "Error: Function f is not available in this scope",
        ),
        (
            CompileError::ImmutableVariable("x".to_string()),
            "Error: Variable x is not mutable. Did you forget to use `=` instead of `:=`?",
        ),
        (CompileError::NotAssignable, "Error: Expected a variable on the left of an assignment"),
        (CompileError::StaticVariable, "Error: Static variables are not supported"),
        (CompileError::TooManyArguments, "Error: More than six arguments are not supported"),
        (CompileError::AddressOperand, "Error: Only the address of a variable can be taken"),
        (CompileError::ArrayElement, "Error: Unsupported array element type"),
        (CompileError::LoopControl, "Error: break and continue are not supported"),
        (CompileError::EmptySubstitution, "Error: Invalid identifier for inline assembly"),
        (
            CompileError::FrameTooLarge,
            "Error: The locals of a function do not fit the address space",
        ),
        (CompileError::EmptyFrame, "Error: The locals of a function take no room"),
        (CompileError::ScopeNotCleared, "Error: Scope has not been cleared"),
        (CompileError::UnknownSource("a.nmt".to_string()), "Error: Can not read the file a.nmt"),
        (CompileError::ImportDepth, "Error: Imports are nested too deeply"),
        (CompileError::BlockLimit, "Error: A function has too many blocks"),
    ];
    for (error, message) in cases {
        assert_eq!(error.message(), message);
    }
}

#[test]
fn slot_fields() {
    let slot = nemet::compiler::VariableMap::new("buf".to_string(), 16, 12, 1, true);
    assert_eq!(slot.ident(), "buf");
    assert_eq!(slot.offset(), 16);
    assert_eq!(slot.size(), 12);
    assert_eq!(slot.item_size(), 1);
    assert!(slot.is_mut());
    assert_eq!(slot.below(), 28);
    let copy = slot.clone();
    assert_eq!(copy.ident(), "buf");
    assert_eq!(copy.below(), 28);
}

use nemet::compiler::{function_args_register, mem_word, rbs, Compiler};
use nemet::instr::{render_all, Instruction, Jump};
use nemet::text::{chars_of, decimal_string, push_decimal, signed_decimal_string, str_eq};

#[test]
fn mem_word_of_each_width() {
    assert_eq!(mem_word(1), "byte");
    assert_eq!(mem_word(2), "word");
    assert_eq!(mem_word(4), "dword");
    assert_eq!(mem_word(8), "qword");
}

#[test]
fn general_registers_by_width() {
    assert_eq!(rbs("a", 1), "al");
    assert_eq!(rbs("a", 2), "ax");
    assert_eq!(rbs("a", 4), "eax");
    assert_eq!(rbs("a", 8), "rax");
    assert_eq!(rbs("b", 8), "rbx");
    assert_eq!(rbs("c", 1), "cl");
    assert_eq!(rbs("d", 4), "edx");
}

#[test]
fn pointer_and_index_registers_by_width() {
    assert_eq!(rbs("sp", 1), "spl");
    assert_eq!(rbs("sp", 2), "sp");
    assert_eq!(rbs("bp", 4), "ebp");
    assert_eq!(rbs("bp", 8), "rbp");
    assert_eq!(rbs("si", 1), "sil");
    assert_eq!(rbs("si", 8), "rsi");
    assert_eq!(rbs("di", 2), "di");
    assert_eq!(rbs("di", 4), "edi");
}

#[test]
fn numbered_registers_by_width() {
    assert_eq!(rbs("r8", 1), "r8b");
    assert_eq!(rbs("r9", 2), "r9w");
    assert_eq!(rbs("r10", 4), "r10d");
    assert_eq!(rbs("r11", 8), "r11");
}

#[test]
fn argument_registers_in_order() {
    let names: Vec<String> = (0..6).map(|i| function_args_register(i, 8)).collect();
    assert_eq!(names, vec!["rdi", "rsi", "rdx", "rcx", "r8", "r9"]);
    let narrow: Vec<String> = (0..6).map(|i| function_args_register(i, 4)).collect();
    assert_eq!(narrow, vec!["edi", "esi", "edx", "ecx", "r8d", "r9d"]);
    assert_eq!(function_args_register(0, 1), "dil");
    assert_eq!(function_args_register(4, 1), "r8b");
}

#[test]
fn argument_registers_are_distinct() {
    for i in 0..6 {
        for j in 0..6 {
            if i != j {
                assert_ne!(function_args_register(i, 8), function_args_register(j, 8));
            }
        }
    }
}

#[test]
fn decimal_numerals() {
    assert_eq!(decimal_string(0), "0");
    assert_eq!(decimal_string(7), "7");
    assert_eq!(decimal_string(10), "10");
    assert_eq!(decimal_string(4096), "4096");
    assert_eq!(decimal_string(usize::MAX), usize::MAX.to_string());
}

#[test]
fn signed_decimal_numerals() {
    assert_eq!(signed_decimal_string(0), "0");
    assert_eq!(signed_decimal_string(42), "42");
    assert_eq!(signed_decimal_string(-1), "-1");
    assert_eq!(signed_decimal_string(i32::MAX), "2147483647");
    assert_eq!(signed_decimal_string(i32::MIN), "-2147483648");
}

#[test]
fn decimal_numeral_is_appended() {
    let mut text = "sub rsp, ".to_string();
    push_decimal(&mut text, 4096);
    assert_eq!(text, "sub rsp, 4096");
    push_decimal(&mut text, 0);
    assert_eq!(text, "sub rsp, 40960");
    let mut text = String::new();
    push_decimal(&mut text, u64::MAX);
    assert_eq!(text, "18446744073709551615");
}

#[test]
fn characters_of_a_string() {
    assert_eq!(chars_of(""), Vec::<char>::new());
    assert_eq!(chars_of("a\u{e9}\n"), vec!['a', '\u{e9}', '\n']);
}

#[test]
fn string_comparison() {
    assert!(str_eq("main", "main"));
    assert!(!str_eq("main", "mainly"));
    assert!(!str_eq("main", "maim"));
    assert!(str_eq("", ""));
    assert!(!str_eq("a", ""));
}

#[test]
fn string_constant_operands() {
    assert_eq!(Compiler::asmfy_string(""), "");
    assert_eq!(Compiler::asmfy_string("hi"), "\"hi\"");
    assert_eq!(Compiler::asmfy_string("hi\n"), "\"hi\", 10");
    assert_eq!(Compiler::asmfy_string("\n"), " 10");
    assert_eq!(Compiler::asmfy_string("\n\n"), " 10, 10");
    assert_eq!(Compiler::asmfy_string("a\tb"), "\"a\", 9,\"b\"");
    assert_eq!(Compiler::asmfy_string("a\r\n"), "\"a\", 13, 10");
    assert_eq!(Compiler::asmfy_string("say \"x\""), "\"say \", 34,\"x\", 34");
    assert_eq!(Compiler::asmfy_string("\u{e9}t\u{e9}\n"), "\"\u{e9}t\u{e9}\", 10");
}

#[test]
fn lines_of_each_kind() {
    let buf = vec![
        Instruction::Entry("fib".to_string()),
        Instruction::Reserved,
        Instruction::Label(12),
        Instruction::Branch(Jump::Always, 3),
        Instruction::Branch(Jump::IfZero, 40),
        Instruction::Branch(Jump::IfNotZero, 0),
        Instruction::Push("rax".to_string()),
        Instruction::Pop("rdi".to_string()),
        Instruction::Plain("mov rax, 0".to_string()),
        Instruction::Inline("nop".to_string()),
    ];
    let expected = vec![
        "fib:\n",
        "",
        "    .L12:\n",
        "    jmp .L3\n",
        "    jz .L40\n",
        "    jnz .L0\n",
        "    push rax\n",
        "    pop rdi\n",
        "    mov rax, 0\n",
        "    nop\n",
    ];
    assert_eq!(render_all(&buf), expected);
    assert_eq!(buf[2].render(), "    .L12:\n");
}

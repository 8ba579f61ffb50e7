use nemet::compiler::program::imports_of;
use nemet::compiler::compile_to_asm;
use nemet::grammar::tokens::{LexError, LexErrorKind};
use nemet::lexer::{ParseErrorKind, Token, TokenType};
use nemet::parser::{parse_source, SourceError};
use nemet::scanner::tokenize;

use TokenType as T;

fn kinds(source: &str) -> Vec<TokenType> {
    tokenize(source).unwrap().iter().map(|t| t.t_type).collect()
}

fn texts(source: &str) -> Vec<String> {
    tokenize(source).unwrap().iter().map(|t| t.literal.clone()).collect()
}

fn places(source: &str) -> Vec<(usize, usize)> {
    tokenize(source).unwrap().iter().map(|t: &Token| (t.line, t.col)).collect()
}

fn compile(source: &str) -> (Vec<String>, Vec<String>) {
    let file = parse_source("main.nmt".to_string(), source).unwrap();
    compile_to_asm("main.nmt".to_string(), &vec![file]).unwrap()
}

#[test]
fn empty_and_blank_sources() {
    assert!(tokenize("").unwrap().is_empty());
    assert!(tokenize(" \t\r\n  \n").unwrap().is_empty());
}

#[test]
fn words() {
    let source = "func var if else while break continue return print asm import ptr true false";
    assert_eq!(
        kinds(source),
        vec![
            T::Func,
            T::Var,
            T::If,
            T::Else,
            T::While,
            T::Break,
            T::Continue,
            T::Return,
            T::Print,
            T::Asm,
            T::Import,
            T::Ptr,
            T::True,
            T::False,
        ]
    );
    assert_eq!(kinds("funcs _x x1 If int"), vec![T::Identifier; 5]);
    assert_eq!(texts("funcs _x x1 If int"), vec!["funcs", "_x", "x1", "If", "int"]);
    assert_eq!(texts("while"), vec!["while"]);
}

#[test]
fn numbers() {
    assert_eq!(kinds("0 7 42 007 2147483647"), vec![
        T::Int(0),
        T::Int(7),
        T::Int(42),
        T::Int(7),
        T::Int(2147483647),
    ]);
    assert_eq!(texts("007"), vec!["007"]);
    assert_eq!(kinds("12ab"), vec![T::Int(12), T::Identifier]);
    assert_eq!(kinds("-5"), vec![T::Minus, T::Int(5)]);
    assert_eq!(
        tokenize(" 2147483648"),
        Err(LexError { kind: LexErrorKind::NumberTooLarge, index: 1, line: 1, col: 2 })
    );
    assert!(tokenize("99999999999999999999999999").is_err());
}

#[test]
fn symbols() {
    let source = "+ - * / % ! & | << >> = := :: += -= *= /= %= == != > < >= <= ( ) [ ] { } , ; @ ?";
    assert_eq!(
        kinds(source),
        vec![
            T::Plus,
            T::Minus,
            T::Multi,
            T::Devide,
            T::Mod,
            T::Not,
            T::And,
            T::Or,
            T::Lsh,
            T::Rsh,
            T::Eq,
            T::ColonEq,
            T::DoubleColon,
            T::PlusEq,
            T::SubEq,
            T::MultiEq,
            T::DivEq,
            T::ModEq,
            T::DoubleEq,
            T::NotEq,
            T::Bigger,
            T::Smaller,
            T::BiggerEq,
            T::SmallerEq,
            T::OParen,
            T::CParen,
            T::OBracket,
            T::CBracket,
            T::OCurly,
            T::CCurly,
            T::Comma,
            T::SemiColon,
            T::ATSign,
            T::QMark,
        ]
    );
    assert_eq!(texts(":= <<"), vec![":=", "<<"]);
}

#[test]
fn the_longer_symbol_is_taken() {
    assert_eq!(kinds("a+=1"), vec![T::Identifier, T::PlusEq, T::Int(1)]);
    assert_eq!(kinds("a==b"), vec![T::Identifier, T::DoubleEq, T::Identifier]);
    assert_eq!(kinds("==="), vec![T::DoubleEq, T::Eq]);
    assert_eq!(kinds("<<="), vec![T::Lsh, T::Eq]);
    assert_eq!(kinds(">>>"), vec![T::Rsh, T::Bigger]);
    assert!(tokenize(":::").is_err());
    assert_eq!(kinds("a<b"), vec![T::Identifier, T::Smaller, T::Identifier]);
}

#[test]
fn strings() {
    assert_eq!(kinds("\"hi\""), vec![T::String]);
    assert_eq!(texts("\"hi\""), vec!["hi"]);
    assert_eq!(texts("\"\""), vec![""]);
    assert_eq!(texts(r#""a\n\t\r\0\\\'\"z""#), vec!["a\n\t\r\0\\'\"z"]);
    assert_eq!(texts("\"two\nlines\" x"), vec!["two\nlines", "x"]);
    assert_eq!(texts("\"\u{e9}t\u{e9}\""), vec!["\u{e9}t\u{e9}"]);
    assert_eq!(places("\"two\nlines\" x"), vec![(1, 1), (2, 8)]);
}

#[test]
fn characters() {
    assert_eq!(kinds("'x'"), vec![T::Char('x')]);
    assert_eq!(texts("'x'"), vec!["'x'"]);
    assert_eq!(kinds(r"'\n' '\'' '\\' '\0' '\t'"), vec![
        T::Char('\n'),
        T::Char('\''),
        T::Char('\\'),
        T::Char('\0'),
        T::Char('\t'),
    ]);
    assert_eq!(kinds("'\"'"), vec![T::Char('"')]);
}

#[test]
fn lines_and_columns() {
    let source = "func main() {\n    return 42;\n}\n";
    assert_eq!(
        places(source),
        vec![(1, 1), (1, 6), (1, 10), (1, 11), (1, 13), (2, 5), (2, 12), (2, 14), (3, 1)]
    );
    assert_eq!(places("\r\n\tx"), vec![(2, 2)]);
}

#[test]
fn scanning_errors() {
    assert_eq!(
        tokenize("x = #"),
        Err(LexError { kind: LexErrorKind::UnexpectedChar, index: 4, line: 1, col: 5 })
    );
    assert_eq!(
        tokenize("a\n \"open"),
        Err(LexError { kind: LexErrorKind::UnterminatedString, index: 3, line: 2, col: 2 })
    );
    assert_eq!(
        tokenize("\"open\\"),
        Err(LexError { kind: LexErrorKind::UnterminatedString, index: 0, line: 1, col: 1 })
    );
    assert_eq!(
        tokenize("\"bad \\q\""),
        Err(LexError { kind: LexErrorKind::BadEscape, index: 0, line: 1, col: 1 })
    );
    for source in ["'", "'x", "'xy'", "'\\n", "'\\", "''"] {
        assert_eq!(
            tokenize(source),
            Err(LexError { kind: LexErrorKind::UnterminatedChar, index: 0, line: 1, col: 1 }),
            "{}",
            source
        );
    }
    assert_eq!(
        tokenize("'\\q'"),
        Err(LexError { kind: LexErrorKind::BadEscape, index: 0, line: 1, col: 1 })
    );
    assert!(tokenize("caf\u{e9}").is_err());
}

#[test]
fn source_errors() {
    assert_eq!(
        parse_source("a.nmt".to_string(), "func main() { $ }").map(|_| ()),
        Err(SourceError::Lex(LexError {
            kind: LexErrorKind::UnexpectedChar,
            index: 14,
            line: 1,
            col: 15
        }))
    );
    match parse_source("a.nmt".to_string(), "func main() { return 1 }") {
        Err(SourceError::Parse(e)) => {
            assert_eq!(e.kind, ParseErrorKind::Expected(T::SemiColon));
            assert_eq!(e.found, T::CCurly);
            assert_eq!(e.index, 7);
        },
        other => panic!("unexpected outcome {:?}", other),
    }
}

#[test]
fn imports_of_a_file() {
    let source = "import \"lib/io\" :: read, write\nfunc main() { }\nimport \"util\"\n";
    let file = parse_source("main.nmt".to_string(), source).unwrap();
    assert_eq!(file.file_path, "main.nmt");
    assert_eq!(imports_of(&file), vec!["lib/io.nmt", "util.nmt"]);
    let file = parse_source("main.nmt".to_string(), "func main() { }").unwrap();
    assert!(imports_of(&file).is_empty());
}

#[test]
fn integer_literal_return_from_source() {
    let (code, _) = compile("func main() { return 42; }");
    let expected = vec![
        "_start:\n",
        "",
        "",
        "",
        "    push 42\n",
        "    pop rax\n",
        "    leave\n",
        "    ret\n",
        "    mov rax, 60\n",
        "    mov rdi, 0\n",
        "    syscall\n",
    ];
    assert_eq!(code, expected);
}

#[test]
fn variable_with_initializer_from_source() {
    let (code, _) = compile("func main() { var x @ int := 7; return x; }");
    assert_eq!(&code[1..4], ["    push rbp\n", "    mov rbp, rsp\n", "    sub rsp, 16\n"]);
    assert_eq!(code[6], "    mov qword [rbp-8],rax\n");
}

#[test]
fn if_else_from_source() {
    let (code, _) =
        compile("func main() { var x := 1; if x { return 1; } else { return 0; } }");
    for line in ["    test rax, rax\n", "    jz .L9\n", "    jmp .L7\n", "    .L9:\n", "    .L7:\n"] {
        assert_eq!(code.iter().filter(|l| *l == line).count(), 1, "{}", line);
    }
}

#[test]
fn while_loop_from_source() {
    let (code, _) = compile("func main() { var i = 0; while i < 3 { i += 1; } return i; }");
    let at = |line: &str| code.iter().position(|l| l == line).unwrap();
    assert!(at("    jmp .L7\n") < at("    .L8:\n"));
    assert!(at("    .L8:\n") < at("    add qword [rbp-8],rax\n"));
    assert!(at("    add qword [rbp-8],rax\n") < at("    .L7:\n"));
    assert!(at("    .L7:\n") < at("    cmp rax, rbx\n"));
    assert!(at("    cmp rax, rbx\n") < at("    jnz .L8\n"));
}

#[test]
fn array_of_char_from_source() {
    let (code, _) = compile("func main() { var s @ [char, 4]; s[1] = 'x'; }");
    assert!(code.contains(&"    mov byte [rbp-4+rbx*1],al\n".to_string()));
    assert!(code.contains(&"    push 120\n".to_string()));
}

#[test]
fn print_string_from_source() {
    let (code, data) = compile("func main() { print \"hi\\n\"; }");
    assert_eq!(data, vec!["    data0 db \"hi\", 10\n", "    len0 equ $ - data0\n"]);
    for line in ["    mov rax, 1\n", "    mov rdi, 1\n", "    syscall\n"] {
        assert!(code.contains(&line.to_string()));
    }
}

#[test]
fn program_with_functions_and_inline_assembly_from_source() {
    let source = r#"
func add(a @int, b @int) @int {
    return a + b;
}

func main() {
    var total = add(1, 2) * 3;
    asm {
        "mov rax, %total"
        "inc rax"
    }
    if total >= 9 { print total; } else if total == 0 { print -total; }
}
"#;
    let (code, _) = compile(source);
    assert!(code.contains(&"add:\n".to_string()));
    assert!(code.contains(&"    call add\n".to_string()));
    assert!(code.contains(&"    mov rax, qword [rbp-8]\n".to_string()));
    assert!(code.contains(&"    inc rax\n".to_string()));
    assert!(code.contains(&"    cmovge rcx, rdx\n".to_string()));
    assert!(code.contains(&"    neg rax\n".to_string()));
}

#[test]
fn static_variable_is_parsed_and_refused() {
    let file = parse_source("main.nmt".to_string(), "func main() { var limit :: 10; }").unwrap();
    assert!(matches!(
        compile_to_asm("main.nmt".to_string(), &vec![file]),
        Err(nemet::error::CompileError::StaticVariable)
    ));
    let file = parse_source("main.nmt".to_string(), "var limit @int :: 10").unwrap();
    assert!(matches!(
        compile_to_asm("main.nmt".to_string(), &vec![file]),
        Err(nemet::error::CompileError::StaticVariable)
    ));
}

#[test]
fn pointer_written_as_an_array_of_unknown_length() {
    let (code, _) = compile("func f(p @[char, ?]) { print p; }");
    assert!(code.contains(&"    mov qword [rbp-8],rdi\n".to_string()));
}


//! The instruction buffer: what a line of it is, and the text it stands for.

use vstd::prelude::*;
use crate::text::{decimal, push_decimal};

verus! {

/// The condition of a jump to a local label.
#[derive(Clone, Copy, Debug, PartialEq, Eq, Structural)]
pub enum Jump {
    /// `jmp`
    Always,
    /// `jz`
    IfZero,
    /// `jnz`
    IfNotZero,
}

/// One line of the instruction buffer, as specifications see it.
pub enum Instr {
    /// The label that opens a function: `name:`.
    Entry(Seq<char>),
    /// An empty line kept free for the prologue.
    Reserved,
    /// The definition of a local label: `.L<n>:`.
    Label(nat),
    /// A jump to a local label.
    Branch(Jump, nat),
    /// `push <operand>`
    Push(Seq<char>),
    /// `pop <operand>`
    Pop(Seq<char>),
    /// Any other instruction that the lowering writes.
    Plain(Seq<char>),
    /// A line of inline assembly, taken from the source program.
    Inline(Seq<char>),
}

/// One line of the instruction buffer.
#[derive(Debug)]
pub enum Instruction {
    Entry(String),
    Reserved,
    Label(usize),
    Branch(Jump, usize),
    Push(String),
    Pop(String),
    Plain(String),
    Inline(String),
}

impl View for Instruction {
    type V = Instr;

    open spec fn view(&self) -> Instr {
        match *self {
            Instruction::Entry(name) => Instr::Entry(name@),
            Instruction::Reserved => Instr::Reserved,
            Instruction::Label(n) => Instr::Label(n as nat),
            Instruction::Branch(j, n) => Instr::Branch(j, n as nat),
            Instruction::Push(operand) => Instr::Push(operand@),
            Instruction::Pop(operand) => Instr::Pop(operand@),
            Instruction::Plain(text) => Instr::Plain(text@),
            Instruction::Inline(text) => Instr::Inline(text@),
        }
    }
}

/// The mnemonic of a jump.
pub open spec fn jump_mnemonic(j: Jump) -> Seq<char> {
    match j {
        Jump::Always => "jmp"@,
        Jump::IfZero => "jz"@,
        Jump::IfNotZero => "jnz"@,
    }
}

/// An instruction as a line of the output: four spaces, the text, a newline.
pub open spec fn indented(text: Seq<char>) -> Seq<char> {
    "    "@ + text + "\n"@
}

/// The name of local label `n`.
pub open spec fn label_name(n: nat) -> Seq<char> {
    ".L"@ + decimal(n)
}

impl Instr {
    /// The line of assembly text that this entry of the buffer stands for.
    pub open spec fn text(self) -> Seq<char> {
        match self {
            Instr::Entry(name) => name + ":\n"@,
            Instr::Reserved => Seq::empty(),
            Instr::Label(n) => indented(label_name(n) + ":"@),
            Instr::Branch(j, n) => indented(jump_mnemonic(j) + " "@ + label_name(n)),
            Instr::Push(operand) => indented("push "@ + operand),
            Instr::Pop(operand) => indented("pop "@ + operand),
            Instr::Plain(text) => indented(text),
            Instr::Inline(text) => indented(text),
        }
    }

    /// What the line adds to the count of words on the evaluation stack:
    /// one for a push, minus one for a pop, nothing otherwise. Inline
    /// assembly is not looked into.
    pub open spec fn stack_effect(self) -> int {
        match self {
            Instr::Push(_) => 1,
            Instr::Pop(_) => -1,
            _ => 0,
        }
    }
}

/// The views of the lines of a buffer.
pub open spec fn instrs(buf: Seq<Instruction>) -> Seq<Instr> {
    buf.map_values(|i: Instruction| i@)
}

/// The text of each line of a buffer.
pub open spec fn texts(code: Seq<Instr>) -> Seq<Seq<char>> {
    code.map_values(|i: Instr| i.text())
}

/// The characters of each string of a list.
pub open spec fn views(lines: Seq<String>) -> Seq<Seq<char>> {
    lines.map_values(|s: String| s@)
}

fn indented_string(text: &str) -> (r: String)
    ensures
        r@ == indented(text@),
{
    let mut r = String::from_str("    ");
    r.append(text);
    r.append("\n");
    r
}

fn label_string(n: usize) -> (r: String)
    ensures
        r@ == label_name(n as nat),
{
    let mut r = String::from_str(".L");
    push_decimal(&mut r, n as u64);
    r
}

impl Instruction {
    /// The line of assembly text for this entry.
    pub fn render(&self) -> (r: String)
        ensures
            r@ == self@.text(),
    {
        match self {
            Instruction::Entry(name) => {
                let mut r = name.clone();
                r.append(":\n");
                r
            },
            Instruction::Reserved => String::new(),
            Instruction::Label(n) => {
                let mut t = label_string(*n);
                t.append(":");
                indented_string(t.as_str())
            },
            Instruction::Branch(j, n) => {
                let mut t = String::from_str(
                    match j {
                        Jump::Always => "jmp",
                        Jump::IfZero => "jz",
                        Jump::IfNotZero => "jnz",
                    },
                );
                t.append(" ");
                let l = label_string(*n);
                t.append(l.as_str());
                indented_string(t.as_str())
            },
            Instruction::Push(operand) => {
                let mut t = String::from_str("push ");
                t.append(operand.as_str());
                indented_string(t.as_str())
            },
            Instruction::Pop(operand) => {
                let mut t = String::from_str("pop ");
                t.append(operand.as_str());
                indented_string(t.as_str())
            },
            Instruction::Plain(text) => indented_string(text.as_str()),
            Instruction::Inline(text) => indented_string(text.as_str()),
        }
    }
}

/// The text of every line of a buffer, in order.
pub fn render_all(buf: &Vec<Instruction>) -> (lines: Vec<String>)
    ensures
        views(lines@) == texts(instrs(buf@)),
{
    let mut lines: Vec<String> = Vec::new();
    let mut i: usize = 0;
    while i < buf.len()
        invariant
            i <= buf.len(),
            lines@.len() == i,
            forall|j: int| 0 <= j < i ==> (#[trigger] lines@[j])@ == buf@[j]@.text(),
        decreases buf.len() - i,
    {
        lines.push(buf[i].render());
        i += 1;
    }
    assert(views(lines@) =~= texts(instrs(buf@)));
    lines
}

} // verus!

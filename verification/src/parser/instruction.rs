use vstd::prelude::*;

use crate::parser::text::{spells, to_chars};

verus! {

/// The opcodes of asmr. In source text an opcode is written in lower case.
#[derive(Clone, Copy, Debug, PartialEq, Eq, Structural)]
pub enum Instruction {
    Nop,
    // Stack
    Push,
    Pop,
    // Move
    Mov,
    Xchg,
    // Arithmetic
    Add,
    Sub,
    Mul,
    Div,
    Inc,
    Dec,
    Shl,
    Shr,
    // Comparisons
    Cmp,
    And,
    Or,
    Not,
    Xor,
    Test,
    // Jumps
    Jmp,
    Jz,
    Jnz,
    Jg,
    Jl,
    Jge,
    Jle,
    Je,
    Jne,
    // Functions
    Call,
    Ret,
}

/// How many opcodes there are.
pub const INSTRUCTION_COUNT: usize = 30;

impl Instruction {
    /// The opcode as it is written in source text.
    pub open spec fn spec_name(self) -> Seq<char> {
        match self {
            Instruction::Nop => "nop"@,
            Instruction::Push => "push"@,
            Instruction::Pop => "pop"@,
            Instruction::Mov => "mov"@,
            Instruction::Xchg => "xchg"@,
            Instruction::Add => "add"@,
            Instruction::Sub => "sub"@,
            Instruction::Mul => "mul"@,
            Instruction::Div => "div"@,
            Instruction::Inc => "inc"@,
            Instruction::Dec => "dec"@,
            Instruction::Shl => "shl"@,
            Instruction::Shr => "shr"@,
            Instruction::Cmp => "cmp"@,
            Instruction::And => "and"@,
            Instruction::Or => "or"@,
            Instruction::Not => "not"@,
            Instruction::Xor => "xor"@,
            Instruction::Test => "test"@,
            Instruction::Jmp => "jmp"@,
            Instruction::Jz => "jz"@,
            Instruction::Jnz => "jnz"@,
            Instruction::Jg => "jg"@,
            Instruction::Jl => "jl"@,
            Instruction::Jge => "jge"@,
            Instruction::Jle => "jle"@,
            Instruction::Je => "je"@,
            Instruction::Jne => "jne"@,
            Instruction::Call => "call"@,
            Instruction::Ret => "ret"@,
        }
    }

    /// The opcode that `text` spells, if it spells one. The match is exact
    /// and case-sensitive.
    pub open spec fn spec_from_name(text: Seq<char>) -> Option<Instruction> {
        if text == "nop"@ {
            Some(Instruction::Nop)
        }         else if text == "push"@ {
            Some(Instruction::Push)
        }         else if text == "pop"@ {
            Some(Instruction::Pop)
        }         else if text == "mov"@ {
            Some(Instruction::Mov)
        }         else if text == "xchg"@ {
            Some(Instruction::Xchg)
        }         else if text == "add"@ {
            Some(Instruction::Add)
        }         else if text == "sub"@ {
            Some(Instruction::Sub)
        }         else if text == "mul"@ {
            Some(Instruction::Mul)
        }         else if text == "div"@ {
            Some(Instruction::Div)
        }         else if text == "inc"@ {
            Some(Instruction::Inc)
        }         else if text == "dec"@ {
            Some(Instruction::Dec)
        }         else if text == "shl"@ {
            Some(Instruction::Shl)
        }         else if text == "shr"@ {
            Some(Instruction::Shr)
        }         else if text == "cmp"@ {
            Some(Instruction::Cmp)
        }         else if text == "and"@ {
            Some(Instruction::And)
        }         else if text == "or"@ {
            Some(Instruction::Or)
        }         else if text == "not"@ {
            Some(Instruction::Not)
        }         else if text == "xor"@ {
            Some(Instruction::Xor)
        }         else if text == "test"@ {
            Some(Instruction::Test)
        }         else if text == "jmp"@ {
            Some(Instruction::Jmp)
        }         else if text == "jz"@ {
            Some(Instruction::Jz)
        }         else if text == "jnz"@ {
            Some(Instruction::Jnz)
        }         else if text == "jg"@ {
            Some(Instruction::Jg)
        }         else if text == "jl"@ {
            Some(Instruction::Jl)
        }         else if text == "jge"@ {
            Some(Instruction::Jge)
        }         else if text == "jle"@ {
            Some(Instruction::Jle)
        }         else if text == "je"@ {
            Some(Instruction::Je)
        }         else if text == "jne"@ {
            Some(Instruction::Jne)
        }         else if text == "call"@ {
            Some(Instruction::Call)
        }         else if text == "ret"@ {
            Some(Instruction::Ret)
        } else {
            None
        }
    }

    /// The opcode at a position of the list of all opcodes.
    pub open spec fn at(index: int) -> Instruction {
        if index == 0 {
            Instruction::Nop
        }         else if index == 1 {
            Instruction::Push
        }         else if index == 2 {
            Instruction::Pop
        }         else if index == 3 {
            Instruction::Mov
        }         else if index == 4 {
            Instruction::Xchg
        }         else if index == 5 {
            Instruction::Add
        }         else if index == 6 {
            Instruction::Sub
        }         else if index == 7 {
            Instruction::Mul
        }         else if index == 8 {
            Instruction::Div
        }         else if index == 9 {
            Instruction::Inc
        }         else if index == 10 {
            Instruction::Dec
        }         else if index == 11 {
            Instruction::Shl
        }         else if index == 12 {
            Instruction::Shr
        }         else if index == 13 {
            Instruction::Cmp
        }         else if index == 14 {
            Instruction::And
        }         else if index == 15 {
            Instruction::Or
        }         else if index == 16 {
            Instruction::Not
        }         else if index == 17 {
            Instruction::Xor
        }         else if index == 18 {
            Instruction::Test
        }         else if index == 19 {
            Instruction::Jmp
        }         else if index == 20 {
            Instruction::Jz
        }         else if index == 21 {
            Instruction::Jnz
        }         else if index == 22 {
            Instruction::Jg
        }         else if index == 23 {
            Instruction::Jl
        }         else if index == 24 {
            Instruction::Jge
        }         else if index == 25 {
            Instruction::Jle
        }         else if index == 26 {
            Instruction::Je
        }         else if index == 27 {
            Instruction::Jne
        }         else if index == 28 {
            Instruction::Call
        } else {
            Instruction::Ret
        }
    }

    /// Computes [`spec_name`](Self::spec_name).
    pub fn name(self) -> (text: &'static str)
        ensures
            text@ == self.spec_name(),
    {
        match self {
            Instruction::Nop => "nop",
            Instruction::Push => "push",
            Instruction::Pop => "pop",
            Instruction::Mov => "mov",
            Instruction::Xchg => "xchg",
            Instruction::Add => "add",
            Instruction::Sub => "sub",
            Instruction::Mul => "mul",
            Instruction::Div => "div",
            Instruction::Inc => "inc",
            Instruction::Dec => "dec",
            Instruction::Shl => "shl",
            Instruction::Shr => "shr",
            Instruction::Cmp => "cmp",
            Instruction::And => "and",
            Instruction::Or => "or",
            Instruction::Not => "not",
            Instruction::Xor => "xor",
            Instruction::Test => "test",
            Instruction::Jmp => "jmp",
            Instruction::Jz => "jz",
            Instruction::Jnz => "jnz",
            Instruction::Jg => "jg",
            Instruction::Jl => "jl",
            Instruction::Jge => "jge",
            Instruction::Jle => "jle",
            Instruction::Je => "je",
            Instruction::Jne => "jne",
            Instruction::Call => "call",
            Instruction::Ret => "ret",
        }
    }

    /// Reads an opcode; `None` where `text` spells none.
    pub fn from_str(text: &str) -> (instruction: Option<Instruction>)
        ensures
            instruction == Self::spec_from_name(text@),
    {
        let chars = to_chars(text);
        Self::from_chars(&chars)
    }

    /// Reads an opcode given as characters.
    pub fn from_chars(chars: &Vec<char>) -> (instruction: Option<Instruction>)
        ensures
            instruction == Self::spec_from_name(chars@),
    {
        if spells(chars, "nop") {
            Some(Instruction::Nop)
        }         else if spells(chars, "push") {
            Some(Instruction::Push)
        }         else if spells(chars, "pop") {
            Some(Instruction::Pop)
        }         else if spells(chars, "mov") {
            Some(Instruction::Mov)
        }         else if spells(chars, "xchg") {
            Some(Instruction::Xchg)
        }         else if spells(chars, "add") {
            Some(Instruction::Add)
        }         else if spells(chars, "sub") {
            Some(Instruction::Sub)
        }         else if spells(chars, "mul") {
            Some(Instruction::Mul)
        }         else if spells(chars, "div") {
            Some(Instruction::Div)
        }         else if spells(chars, "inc") {
            Some(Instruction::Inc)
        }         else if spells(chars, "dec") {
            Some(Instruction::Dec)
        }         else if spells(chars, "shl") {
            Some(Instruction::Shl)
        }         else if spells(chars, "shr") {
            Some(Instruction::Shr)
        }         else if spells(chars, "cmp") {
            Some(Instruction::Cmp)
        }         else if spells(chars, "and") {
            Some(Instruction::And)
        }         else if spells(chars, "or") {
            Some(Instruction::Or)
        }         else if spells(chars, "not") {
            Some(Instruction::Not)
        }         else if spells(chars, "xor") {
            Some(Instruction::Xor)
        }         else if spells(chars, "test") {
            Some(Instruction::Test)
        }         else if spells(chars, "jmp") {
            Some(Instruction::Jmp)
        }         else if spells(chars, "jz") {
            Some(Instruction::Jz)
        }         else if spells(chars, "jnz") {
            Some(Instruction::Jnz)
        }         else if spells(chars, "jg") {
            Some(Instruction::Jg)
        }         else if spells(chars, "jl") {
            Some(Instruction::Jl)
        }         else if spells(chars, "jge") {
            Some(Instruction::Jge)
        }         else if spells(chars, "jle") {
            Some(Instruction::Jle)
        }         else if spells(chars, "je") {
            Some(Instruction::Je)
        }         else if spells(chars, "jne") {
            Some(Instruction::Jne)
        }         else if spells(chars, "call") {
            Some(Instruction::Call)
        }         else if spells(chars, "ret") {
            Some(Instruction::Ret)
        } else {
            None
        }
    }

    /// Every opcode, in the order of their declaration.
    pub fn all() -> (list: Vec<Instruction>)
        ensures
            list.len() == INSTRUCTION_COUNT,
            forall|i: int| 0 <= i < INSTRUCTION_COUNT ==> list[i] == Self::at(i),
    {
        vec![
            Instruction::Nop,
            Instruction::Push,
            Instruction::Pop,
            Instruction::Mov,
            Instruction::Xchg,
            Instruction::Add,
            Instruction::Sub,
            Instruction::Mul,
            Instruction::Div,
            Instruction::Inc,
            Instruction::Dec,
            Instruction::Shl,
            Instruction::Shr,
            Instruction::Cmp,
            Instruction::And,
            Instruction::Or,
            Instruction::Not,
            Instruction::Xor,
            Instruction::Test,
            Instruction::Jmp,
            Instruction::Jz,
            Instruction::Jnz,
            Instruction::Jg,
            Instruction::Jl,
            Instruction::Jge,
            Instruction::Jle,
            Instruction::Je,
            Instruction::Jne,
            Instruction::Call,
            Instruction::Ret,
        ]
    }

    /// An opcode is made of lower-case ASCII letters: it holds no blank, no
    /// quotation mark and no semicolon.
    pub proof fn lemma_name_is_lower_case(self)
        ensures
            self.spec_name().len() > 0,
            forall|i: int|
                0 <= i < self.spec_name().len() ==> 'a' <= #[trigger] self.spec_name()[i] <= 'z',
    {
        reveal_strlit("nop");
        reveal_strlit("push");
        reveal_strlit("pop");
        reveal_strlit("mov");
        reveal_strlit("xchg");
        reveal_strlit("add");
        reveal_strlit("sub");
        reveal_strlit("mul");
        reveal_strlit("div");
        reveal_strlit("inc");
        reveal_strlit("dec");
        reveal_strlit("shl");
        reveal_strlit("shr");
        reveal_strlit("cmp");
        reveal_strlit("and");
        reveal_strlit("or");
        reveal_strlit("not");
        reveal_strlit("xor");
        reveal_strlit("test");
        reveal_strlit("jmp");
        reveal_strlit("jz");
        reveal_strlit("jnz");
        reveal_strlit("jg");
        reveal_strlit("jl");
        reveal_strlit("jge");
        reveal_strlit("jle");
        reveal_strlit("je");
        reveal_strlit("jne");
        reveal_strlit("call");
        reveal_strlit("ret");
    }

    /// Reading the written form of an opcode gives the opcode back.
    pub proof fn lemma_name_round_trip(self)
        ensures
            Self::spec_from_name(self.spec_name()) == Some(self),
    {
        reveal_strlit("nop");
        reveal_strlit("push");
        reveal_strlit("pop");
        reveal_strlit("mov");
        reveal_strlit("xchg");
        reveal_strlit("add");
        reveal_strlit("sub");
        reveal_strlit("mul");
        reveal_strlit("div");
        reveal_strlit("inc");
        reveal_strlit("dec");
        reveal_strlit("shl");
        reveal_strlit("shr");
        reveal_strlit("cmp");
        reveal_strlit("and");
        reveal_strlit("or");
        reveal_strlit("not");
        reveal_strlit("xor");
        reveal_strlit("test");
        reveal_strlit("jmp");
        reveal_strlit("jz");
        reveal_strlit("jnz");
        reveal_strlit("jg");
        reveal_strlit("jl");
        reveal_strlit("jge");
        reveal_strlit("jle");
        reveal_strlit("je");
        reveal_strlit("jne");
        reveal_strlit("call");
        reveal_strlit("ret");
        assert("nop"@.len() == 3);
        assert("nop"@[0] == 'n');
        assert("nop"@[1] == 'o');
        assert("nop"@[2] == 'p');
        assert("push"@.len() == 4);
        assert("push"@[0] == 'p');
        assert("push"@[1] == 'u');
        assert("push"@[2] == 's');
        assert("push"@[3] == 'h');
        assert("pop"@.len() == 3);
        assert("pop"@[0] == 'p');
        assert("pop"@[1] == 'o');
        assert("pop"@[2] == 'p');
        assert("mov"@.len() == 3);
        assert("mov"@[0] == 'm');
        assert("mov"@[1] == 'o');
        assert("mov"@[2] == 'v');
        assert("xchg"@.len() == 4);
        assert("xchg"@[0] == 'x');
        assert("xchg"@[1] == 'c');
        assert("xchg"@[2] == 'h');
        assert("xchg"@[3] == 'g');
        assert("add"@.len() == 3);
        assert("add"@[0] == 'a');
        assert("add"@[1] == 'd');
        assert("add"@[2] == 'd');
        assert("sub"@.len() == 3);
        assert("sub"@[0] == 's');
        assert("sub"@[1] == 'u');
        assert("sub"@[2] == 'b');
        assert("mul"@.len() == 3);
        assert("mul"@[0] == 'm');
        assert("mul"@[1] == 'u');
        assert("mul"@[2] == 'l');
        assert("div"@.len() == 3);
        assert("div"@[0] == 'd');
        assert("div"@[1] == 'i');
        assert("div"@[2] == 'v');
        assert("inc"@.len() == 3);
        assert("inc"@[0] == 'i');
        assert("inc"@[1] == 'n');
        assert("inc"@[2] == 'c');
        assert("dec"@.len() == 3);
        assert("dec"@[0] == 'd');
        assert("dec"@[1] == 'e');
        assert("dec"@[2] == 'c');
        assert("shl"@.len() == 3);
        assert("shl"@[0] == 's');
        assert("shl"@[1] == 'h');
        assert("shl"@[2] == 'l');
        assert("shr"@.len() == 3);
        assert("shr"@[0] == 's');
        assert("shr"@[1] == 'h');
        assert("shr"@[2] == 'r');
        assert("cmp"@.len() == 3);
        assert("cmp"@[0] == 'c');
        assert("cmp"@[1] == 'm');
        assert("cmp"@[2] == 'p');
        assert("and"@.len() == 3);
        assert("and"@[0] == 'a');
        assert("and"@[1] == 'n');
        assert("and"@[2] == 'd');
        assert("or"@.len() == 2);
        assert("or"@[0] == 'o');
        assert("or"@[1] == 'r');
        assert("not"@.len() == 3);
        assert("not"@[0] == 'n');
        assert("not"@[1] == 'o');
        assert("not"@[2] == 't');
        assert("xor"@.len() == 3);
        assert("xor"@[0] == 'x');
        assert("xor"@[1] == 'o');
        assert("xor"@[2] == 'r');
        assert("test"@.len() == 4);
        assert("test"@[0] == 't');
        assert("test"@[1] == 'e');
        assert("test"@[2] == 's');
        assert("test"@[3] == 't');
        assert("jmp"@.len() == 3);
        assert("jmp"@[0] == 'j');
        assert("jmp"@[1] == 'm');
        assert("jmp"@[2] == 'p');
        assert("jz"@.len() == 2);
        assert("jz"@[0] == 'j');
        assert("jz"@[1] == 'z');
        assert("jnz"@.len() == 3);
        assert("jnz"@[0] == 'j');
        assert("jnz"@[1] == 'n');
        assert("jnz"@[2] == 'z');
        assert("jg"@.len() == 2);
        assert("jg"@[0] == 'j');
        assert("jg"@[1] == 'g');
        assert("jl"@.len() == 2);
        assert("jl"@[0] == 'j');
        assert("jl"@[1] == 'l');
        assert("jge"@.len() == 3);
        assert("jge"@[0] == 'j');
        assert("jge"@[1] == 'g');
        assert("jge"@[2] == 'e');
        assert("jle"@.len() == 3);
        assert("jle"@[0] == 'j');
        assert("jle"@[1] == 'l');
        assert("jle"@[2] == 'e');
        assert("je"@.len() == 2);
        assert("je"@[0] == 'j');
        assert("je"@[1] == 'e');
        assert("jne"@.len() == 3);
        assert("jne"@[0] == 'j');
        assert("jne"@[1] == 'n');
        assert("jne"@[2] == 'e');
        assert("call"@.len() == 4);
        assert("call"@[0] == 'c');
        assert("call"@[1] == 'a');
        assert("call"@[2] == 'l');
        assert("call"@[3] == 'l');
        assert("ret"@.len() == 3);
        assert("ret"@[0] == 'r');
        assert("ret"@[1] == 'e');
        assert("ret"@[2] == 't');
    }

    /// Only the written form of an opcode is read as that opcode.
    pub proof fn lemma_from_name_is_name(text: Seq<char>)
        ensures
            Self::spec_from_name(text) matches Some(i) ==> i.spec_name() == text,
    {
    }
}

} // verus!
